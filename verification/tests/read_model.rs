use magi_api::read_model::{
    branch_is_recoverable, branch_stage_is_terminal, keep_runtime_live_id, lookup_status,
    prune_live_ids, push_unique, runtime_status_is_terminal, session_root_task_allows_continue,
    session_root_task_is_terminal, task_status_is_terminal, task_status_label, TaskStatus,
};
use magi_api::session_summary::{
    session_runtime_summary, sort_branches, BranchState, ChainExport, SessionSidecarExport,
    SessionSidecarStatus, TurnExport,
};
use magi_api::turn_items::{ToolText, TurnItemExport};

fn no_text() -> ToolText {
    ToolText { text: None, public: None }
}

fn item(item_id: &str, item_seq: u64, task_id: Option<&str>, task_role_id: Option<&str>) -> TurnItemExport {
    TurnItemExport {
        item_id: item_id.to_string(),
        item_seq,
        kind: "assistant_final".to_string(),
        status: "completed".to_string(),
        source: "orchestrator".to_string(),
        title: Some("总结".to_string()),
        content: Some("这是 turn 主线最终总结".to_string()),
        task_id: task_id.map(str::to_string),
        worker_id: None,
        role_id: None,
        task_role_id: task_role_id.map(str::to_string),
        tool_call_id: None,
        tool_name: None,
        tool_status: None,
        tool_arguments: no_text(),
        tool_result: no_text(),
        tool_error: no_text(),
        request_id: None,
        user_message_id: None,
        placeholder_message_id: None,
        timeline_entry_id: None,
        source_thread_id: "thread-test-orchestrator".to_string(),
    }
}

fn branch(task_id: &str, worker_id: &str, status: &str, stage: &str, is_primary: bool) -> BranchState {
    BranchState {
        task_id: task_id.to_string(),
        worker_id: worker_id.to_string(),
        status: status.to_string(),
        stage: stage.to_string(),
        is_primary,
    }
}

fn export(
    session_id: &str,
    status: SessionSidecarStatus,
    chain: Option<ChainExport>,
    mission_id: Option<&str>,
    task_id: Option<&str>,
) -> SessionSidecarExport {
    SessionSidecarExport {
        session_id: session_id.to_string(),
        status,
        last_update: 42,
        execution_chain_ref: chain.as_ref().map(|c| c.execution_chain_ref.clone()),
        recovery_ref: None,
        chain,
        ownership_mission_id: mission_id.map(str::to_string),
        ownership_task_id: task_id.map(str::to_string),
        current_turn: None,
    }
}

#[test]
fn runtime_read_model_only_counts_failed_non_terminal_branches_as_recoverable() {
    let chain = ChainExport {
        mission_id: "mission-recoverable-1".to_string(),
        root_task_id: "task-root-recoverable-1".to_string(),
        execution_chain_ref: "chain-recoverable-1".to_string(),
        recovery_ref: None,
        root_task: Some((TaskStatus::Failed, 1)),
        branches: vec![
            branch("task-branch-failed", "worker-recoverable-1", "failed", "execute", true),
            branch("task-branch-pending", "worker-recoverable-1", "pending", "execute", false),
            branch("task-branch-running", "worker-recoverable-1", "running", "execute", false),
            branch("task-branch-completed", "worker-recoverable-1", "completed", "finish", false),
            branch("task-branch-finished-failed", "worker-recoverable-1", "failed", "finish", false),
        ],
        active_branch_task_ids: vec![
            "task-branch-failed".to_string(),
            "task-branch-pending".to_string(),
            "task-branch-running".to_string(),
            "task-branch-completed".to_string(),
            "task-branch-finished-failed".to_string(),
        ],
    };
    let session = session_runtime_summary(&export(
        "session-recoverable-1",
        SessionSidecarStatus::Bound,
        Some(chain),
        Some("mission-recoverable-1"),
        Some("task-root-recoverable-1"),
    ));
    assert!(session.has_recoverable_chain);
    assert_eq!(session.recoverable_branch_count, 1);
    assert_eq!(session.active_branches.len(), 5);
}

#[test]
fn runtime_read_model_excludes_completed_root_from_recoverable_chain() {
    let chain = ChainExport {
        mission_id: "mission-terminal-recoverable".to_string(),
        root_task_id: "task-root-terminal-recoverable".to_string(),
        execution_chain_ref: "chain-terminal-recoverable".to_string(),
        recovery_ref: None,
        root_task: Some((TaskStatus::Completed, 1)),
        branches: vec![
            branch("task-root-terminal-recoverable", "worker-terminal-recoverable", "completed", "finish", true),
            branch("task-child-terminal-recoverable", "worker-terminal-recoverable", "failed", "execute", false),
        ],
        active_branch_task_ids: vec![
            "task-root-terminal-recoverable".to_string(),
            "task-child-terminal-recoverable".to_string(),
        ],
    };
    let session = session_runtime_summary(&export(
        "session-terminal-recoverable",
        SessionSidecarStatus::Bound,
        Some(chain),
        Some("mission-terminal-recoverable"),
        Some("task-root-terminal-recoverable"),
    ));
    assert!(!session.has_recoverable_chain);
    assert_eq!(session.recoverable_branch_count, 0);
    assert!(session.active_task_ids.is_empty());
    assert!(session.active_execution_group_ids.is_empty());
}

#[test]
fn bound_session_sidecar_does_not_mark_runtime_session_active() {
    let mut sidecar = export(
        "session-bound",
        SessionSidecarStatus::Bound,
        None,
        Some("mission-bound"),
        Some("task-bound"),
    );
    sidecar.execution_chain_ref = Some("chain-bound".to_string());
    let session = session_runtime_summary(&sidecar);
    assert_eq!(session.session_id, "session-bound");
    assert_eq!(session.current_status, "bound");
    assert!(session.active_execution_group_ids.is_empty());
    assert!(session.active_task_ids.is_empty());
    assert!(session.recovery_ids.is_empty());
    assert_eq!(session.execution_chain_ref.as_deref(), Some("chain-bound"));
}

#[test]
fn session_sidecar_overrides_stale_event_scoped_active_ids() {
    let chain = ChainExport {
        mission_id: "mission-current".to_string(),
        root_task_id: "task-root-current".to_string(),
        execution_chain_ref: "chain-current".to_string(),
        recovery_ref: None,
        root_task: Some((TaskStatus::Completed, 1700)),
        branches: vec![branch("task-branch-current", "worker-current", "completed", "finish", true)],
        active_branch_task_ids: vec!["task-branch-current".to_string()],
    };
    let session = session_runtime_summary(&export(
        "session-stale",
        SessionSidecarStatus::Bound,
        Some(chain),
        Some("mission-current"),
        Some("task-branch-current"),
    ));
    assert!(session.active_execution_group_ids.is_empty());
    assert!(session.active_task_ids.is_empty());
    assert!(session.recovery_ids.is_empty());
    assert_eq!(session.current_status, "bound");
    assert_eq!(session.mission_id.as_deref(), Some("mission-current"));
    assert_eq!(session.root_task_id.as_deref(), Some("task-root-current"));
    assert_eq!(session.root_task_status.as_deref(), Some("completed"));
    assert_eq!(session.root_task_created_at, Some(1700));
    assert_eq!(session.execution_chain_ref.as_deref(), Some("chain-current"));
}

#[test]
fn resumed_sidecar_reports_chain_and_ownership_ids_once_in_order() {
    let chain = ChainExport {
        mission_id: "mission-b".to_string(),
        root_task_id: "task-root".to_string(),
        execution_chain_ref: "chain-1".to_string(),
        recovery_ref: Some("recovery-1".to_string()),
        root_task: Some((TaskStatus::Running, 5)),
        branches: vec![
            branch("task-b", "worker-2", "running", "execute", false),
            branch("task-a", "worker-9", "failed", "review", true),
            branch("task-a", "worker-1", "pending", "execute", false),
        ],
        active_branch_task_ids: vec!["task-b".to_string(), "task-a".to_string(), "task-b".to_string()],
    };
    let mut sidecar = export(
        "session-resumed",
        SessionSidecarStatus::Resumed,
        Some(chain),
        Some("mission-a"),
        Some("task-c"),
    );
    sidecar.recovery_ref = Some("recovery-0".to_string());
    let session = session_runtime_summary(&sidecar);
    assert_eq!(session.current_status, "resumed");
    assert_eq!(session.recoverable_branch_count, 1);
    assert!(session.has_recoverable_chain);
    assert_eq!(session.active_execution_group_ids, vec!["mission-a".to_string(), "mission-b".to_string()]);
    assert_eq!(
        session.active_task_ids,
        vec!["task-a".to_string(), "task-b".to_string(), "task-c".to_string()]
    );
    assert_eq!(session.recovery_ids, vec!["recovery-0".to_string(), "recovery-1".to_string()]);
    assert_eq!(session.recovery_ref.as_deref(), Some("recovery-1"));
    let order: Vec<(&str, &str)> = session
        .active_branches
        .iter()
        .map(|b| (b.task_id.as_str(), b.worker_id.as_str()))
        .collect();
    assert_eq!(order, vec![("task-a", "worker-1"), ("task-a", "worker-9"), ("task-b", "worker-2")]);
}

#[test]
fn sort_branches_orders_by_task_then_worker() {
    let sorted = sort_branches(&vec![
        branch("b", "1", "running", "execute", false),
        branch("a", "2", "running", "execute", false),
        branch("a", "1", "running", "execute", false),
    ]);
    let keys: Vec<String> = sorted.iter().map(|b| format!("{}/{}", b.task_id, b.worker_id)).collect();
    assert_eq!(keys, vec!["a/1", "a/2", "b/1"]);
}

#[test]
fn task_and_branch_states_classify_terminal_and_recoverable() {
    assert_eq!(task_status_label(TaskStatus::Killed), "killed");
    assert!(task_status_is_terminal(TaskStatus::Failed));
    assert!(!task_status_is_terminal(TaskStatus::Running));
    assert!(branch_stage_is_terminal(" Finished "));
    assert!(branch_stage_is_terminal("FINISH"));
    assert!(!branch_stage_is_terminal("execute"));
    assert!(branch_is_recoverable("failed", "execute"));
    assert!(!branch_is_recoverable("failed", "finish"));
    assert!(!branch_is_recoverable("running", "execute"));
    assert!(session_root_task_allows_continue(Some("failed")));
    assert!(session_root_task_allows_continue(None));
    assert!(!session_root_task_allows_continue(Some("killed")));
    assert!(session_root_task_is_terminal(Some("failed")));
    assert!(!session_root_task_is_terminal(Some("cancelled")));
    assert!(runtime_status_is_terminal(Some("canceled")));
    assert!(!runtime_status_is_terminal(None));
}

#[test]
fn live_ids_drop_those_whose_latest_status_is_final() {
    let statuses = vec![
        ("recovery-ready".to_string(), "ready".to_string()),
        ("recovery-consumed".to_string(), "running".to_string()),
        ("recovery-consumed".to_string(), "completed".to_string()),
    ];
    assert_eq!(lookup_status(&statuses, "recovery-consumed"), Some("completed"));
    assert_eq!(lookup_status(&statuses, "recovery-missing"), None);
    assert!(keep_runtime_live_id("recovery-ready", &statuses));
    assert!(!keep_runtime_live_id("recovery-consumed", &statuses));
    let kept = prune_live_ids(
        vec!["recovery-ready".to_string(), "recovery-consumed".to_string(), "recovery-missing".to_string()],
        &statuses,
    );
    assert_eq!(kept, vec!["recovery-ready".to_string(), "recovery-missing".to_string()]);
}

#[test]
fn push_unique_keeps_each_value_once() {
    let mut values = vec!["a".to_string()];
    push_unique(&mut values, Some("b".to_string()));
    push_unique(&mut values, Some("a".to_string()));
    push_unique(&mut values, None);
    assert_eq!(values, vec!["a".to_string(), "b".to_string()]);
}

#[test]
fn session_sidecar_keeps_completed_current_turn_as_display_source() {
    let chain = ChainExport {
        mission_id: "mission-turn-completed".to_string(),
        root_task_id: "task-root-turn-completed".to_string(),
        execution_chain_ref: "chain-turn-completed".to_string(),
        recovery_ref: None,
        root_task: Some((TaskStatus::Completed, 1)),
        branches: vec![branch("task-branch-turn-completed", "worker-turn-completed", "completed", "finish", true)],
        active_branch_task_ids: vec!["task-branch-turn-completed".to_string()],
    };
    let mut sidecar = export(
        "session-turn-completed",
        SessionSidecarStatus::Bound,
        Some(chain),
        Some("mission-turn-completed"),
        Some("task-branch-turn-completed"),
    );
    sidecar.current_turn = Some(TurnExport {
        turn_id: "turn-session-action-completed".to_string(),
        turn_seq: 10,
        accepted_at: 10,
        completed_at: None,
        status: "completed".to_string(),
        user_message: Some("请继续整理结果".to_string()),
        items: vec![item("turn-item-final", 1, Some("task-branch-turn-completed"), Some("analyst"))],
    });
    let session = session_runtime_summary(&sidecar);
    assert!(session.active_execution_group_ids.is_empty());
    assert!(session.active_task_ids.is_empty());
    assert!(!session.active_branches.is_empty());
    assert!(!session.turn_items.is_empty());
    assert_eq!(
        session.turn_items[0].role_id.as_deref(),
        Some("analyst"),
        "turn item role_id should be backfilled from task executor binding"
    );
    let current_turn = session.current_turn.as_ref().expect("completed root should still preserve current turn display state");
    assert_eq!(current_turn.turn_id, "turn-session-action-completed");
    assert_eq!(current_turn.user_message.as_deref(), Some("请继续整理结果"));
    assert_eq!(current_turn.mission_id.as_deref(), Some("mission-turn-completed"));
    assert_eq!(current_turn.response_duration_ms, None);
    assert_eq!(session.root_task_status.as_deref(), Some("completed"));
    assert!(!session.has_recoverable_chain);
    assert_eq!(session.recoverable_branch_count, 0);
}

#[test]
fn turn_response_duration_runs_from_acceptance_to_completion() {
    let mut sidecar = export("session-d", SessionSidecarStatus::Bound, None, None, None);
    sidecar.current_turn = Some(TurnExport {
        turn_id: "turn-d".to_string(),
        turn_seq: 1,
        accepted_at: 100,
        completed_at: Some(350),
        status: "completed".to_string(),
        user_message: None,
        items: vec![],
    });
    assert_eq!(session_runtime_summary(&sidecar).current_turn.unwrap().response_duration_ms, Some(250));
    if let Some(turn) = sidecar.current_turn.as_mut() {
        turn.completed_at = Some(50);
    }
    assert_eq!(session_runtime_summary(&sidecar).current_turn.unwrap().response_duration_ms, Some(0));
}

#[test]
fn turn_items_come_by_sequence_then_id_with_their_roles() {
    let mut own_role = item("item-b", 2, Some("task-1"), Some("analyst"));
    own_role.role_id = Some("planner".to_string());
    let mut sidecar = export("session-items", SessionSidecarStatus::Bound, None, None, None);
    sidecar.current_turn = Some(TurnExport {
        turn_id: "turn-items".to_string(),
        turn_seq: 1,
        accepted_at: 1,
        completed_at: None,
        status: "running".to_string(),
        user_message: None,
        items: vec![
            item("item-c", 2, None, Some("analyst")),
            own_role,
            item("item-a", 3, Some("task-2"), None),
            item("item-z", 1, Some("task-3"), Some("coder")),
        ],
    });
    let session = session_runtime_summary(&sidecar);
    let order: Vec<(&str, u64, Option<&str>)> = session
        .turn_items
        .iter()
        .map(|i| (i.item_id.as_str(), i.item_seq, i.role_id.as_deref()))
        .collect();
    assert_eq!(
        order,
        vec![
            ("item-z", 1, Some("coder")),
            ("item-b", 2, Some("planner")),
            ("item-c", 2, None),
            ("item-a", 3, None),
        ]
    );
    assert!(session_runtime_summary(&export("session-none", SessionSidecarStatus::Bound, None, None, None)).turn_items.is_empty());
}

#[test]
fn turn_item_tool_texts_show_their_public_form() {
    let mut tool = item("turn-item-tool", 1, None, None);
    tool.kind = "tool_call".to_string();
    tool.content = Some("用户要求检查 /Users/xie/code/TEST".to_string());
    tool.tool_arguments = ToolText {
        text: Some(r#"{"path":"/Users/xie/code/TEST/secret.txt","token":"sk-argument-secret"}"#.to_string()),
        public: Some(r#"{"path":"[path]","token":"[redacted]"}"#.to_string()),
    };
    tool.tool_result = ToolText { text: Some("   ".to_string()), public: Some("ignored".to_string()) };
    tool.tool_error = ToolText { text: Some("failed at /var/folders/x".to_string()), public: Some(String::new()) };
    let mut sidecar = export("session-tool-text", SessionSidecarStatus::Bound, None, None, None);
    sidecar.current_turn = Some(TurnExport {
        turn_id: "turn-tool-text".to_string(),
        turn_seq: 1,
        accepted_at: 1,
        completed_at: None,
        status: "running".to_string(),
        user_message: Some("请检查 /Users/xie/code/TEST 里的文件".to_string()),
        items: vec![tool],
    });
    let session = session_runtime_summary(&sidecar);
    assert_eq!(
        session.current_turn.as_ref().unwrap().user_message.as_deref(),
        Some("请检查 /Users/xie/code/TEST 里的文件")
    );
    let shown = &session.turn_items[0];
    assert_eq!(shown.content.as_deref(), Some("用户要求检查 /Users/xie/code/TEST"));
    assert_eq!(shown.tool_arguments.as_deref(), Some(r#"{"path":"[path]","token":"[redacted]"}"#));
    assert_eq!(shown.tool_result, None);
    assert_eq!(shown.tool_error, None);
}
