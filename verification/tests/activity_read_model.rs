use magi_api::activity_read_model::{
    merge_mission_aggregates, merge_task_store_projection, prune_terminal_runtime_live_ids, ActivityReadModel,
    ExecutionGroupEntry, MissionAggregateExport, MissionMetricsSummary, ProjectedTask, TaskEntry, TaskProjection,
};
use magi_api::read_model::TaskStatus;
use magi_api::recovery_read_model::WorkspaceRuntimeEntry;
use magi_api::session_summary::{session_runtime_summary, SessionSidecarExport, SessionSidecarStatus};

fn empty() -> ActivityReadModel {
    ActivityReadModel {
        execution_groups: Vec::new(),
        tasks: Vec::new(),
        active_execution_group_ids: Vec::new(),
        active_task_ids: Vec::new(),
    }
}

fn group(mission_id: &str) -> ExecutionGroupEntry {
    ExecutionGroupEntry {
        mission_id: mission_id.to_string(),
        event_count: 0,
        current_status: None,
        active_task_ids: Vec::new(),
        lifecycle_phase: None,
        metrics: None,
    }
}

fn strings(v: &[&str]) -> Vec<String> {
    v.iter().map(|s| s.to_string()).collect()
}

#[test]
fn merge_mission_aggregates_patches_existing_entry_and_inserts_missing_one() {
    let mut model = empty();
    let mut existing = group("M-task");
    existing.event_count = 7;
    existing.active_task_ids = strings(&["task-1"]);
    model.execution_groups.push(existing);
    let exports = vec![
        MissionAggregateExport {
            mission_id: "M-task".to_string(),
            lifecycle_phase: "executing".to_string(),
            metrics: Some(MissionMetricsSummary {
                turn_count: 3,
                total_prompt_tokens: 120,
                total_completion_tokens: 45,
                total_tokens: 165,
                wall_clock_millis: 1_500,
                first_turn_started_at: Some(1_000),
                last_turn_finished_at: Some(2_500),
                last_lifecycle_phase: Some("executing".to_string()),
            }),
        },
        MissionAggregateExport { mission_id: "M-charter".to_string(), lifecycle_phase: "plan_ready".to_string(), metrics: None },
    ];
    merge_mission_aggregates(&mut model, &exports);

    assert_eq!(model.execution_groups.len(), 2);
    let task_entry = model.execution_groups.iter().find(|e| e.mission_id == "M-task").expect("M-task entry must remain");
    assert_eq!(task_entry.event_count, 7);
    assert_eq!(task_entry.active_task_ids, strings(&["task-1"]));
    assert_eq!(task_entry.lifecycle_phase.as_deref(), Some("executing"));
    let metrics = task_entry.metrics.as_ref().expect("metrics must be set");
    assert_eq!(metrics.turn_count, 3);
    assert_eq!(metrics.total_tokens, 165);
    assert_eq!(metrics.wall_clock_millis, 1_500);
    assert_eq!(metrics.last_lifecycle_phase.as_deref(), Some("executing"));

    let charter_entry = model.execution_groups.iter().find(|e| e.mission_id == "M-charter").expect("M-charter entry must be inserted");
    assert_eq!(charter_entry.lifecycle_phase.as_deref(), Some("plan_ready"));
    assert!(charter_entry.metrics.is_none());
    assert_eq!(charter_entry.event_count, 0);
}

#[test]
fn merge_mission_aggregates_overwrites_previous_lifecycle_phase() {
    let mut model = empty();
    let mut evolving = group("M-evolving");
    evolving.lifecycle_phase = Some("plan_ready".to_string());
    model.execution_groups.push(evolving);
    merge_mission_aggregates(
        &mut model,
        &vec![MissionAggregateExport {
            mission_id: "M-evolving".to_string(),
            lifecycle_phase: "all_steps_completed".to_string(),
            metrics: None,
        }],
    );
    assert_eq!(model.execution_groups[0].lifecycle_phase.as_deref(), Some("all_steps_completed"));
}

#[test]
fn task_projection_sets_group_status_live_tasks_and_task_summaries() {
    let mut model = empty();
    model.tasks.push(TaskEntry {
        task_id: "task-b".to_string(),
        mission_id: None,
        title: Some("old".to_string()),
        current_status: Some("pending".to_string()),
    });
    let projection = TaskProjection {
        mission_id: "mission-1".to_string(),
        root_status: TaskStatus::Running,
        tasks: vec![
            ProjectedTask { task_id: "task-root".to_string(), title: "root".to_string(), status: TaskStatus::Running },
            ProjectedTask { task_id: "task-b".to_string(), title: "B".to_string(), status: TaskStatus::Completed },
            ProjectedTask { task_id: "task-c".to_string(), title: "C".to_string(), status: TaskStatus::Pending },
        ],
    };
    merge_task_store_projection(&mut model, &projection);
    assert_eq!(model.execution_groups.len(), 1);
    assert_eq!(model.execution_groups[0].mission_id, "mission-1");
    assert_eq!(model.execution_groups[0].current_status.as_deref(), Some("running"));
    assert_eq!(model.execution_groups[0].active_task_ids, strings(&["task-root", "task-c"]));
    assert_eq!(model.active_execution_group_ids, strings(&["mission-1"]));
    assert_eq!(model.active_task_ids, strings(&["task-root", "task-c"]));
    assert_eq!(model.tasks.len(), 3);
    assert_eq!(model.tasks[0].task_id, "task-b");
    assert_eq!(model.tasks[0].title.as_deref(), Some("B"));
    assert_eq!(model.tasks[0].current_status.as_deref(), Some("completed"));
    assert_eq!(model.tasks[0].mission_id.as_deref(), Some("mission-1"));

    let finished = TaskProjection {
        mission_id: "mission-2".to_string(),
        root_status: TaskStatus::Completed,
        tasks: vec![ProjectedTask { task_id: "task-x".to_string(), title: "X".to_string(), status: TaskStatus::Completed }],
    };
    merge_task_store_projection(&mut model, &finished);
    assert_eq!(model.active_execution_group_ids, strings(&["mission-1"]));
    assert!(model.execution_groups[1].active_task_ids.is_empty());
}

#[test]
fn terminal_statuses_prune_live_ids_everywhere() {
    let mut model = empty();
    let mut done_group = group("mission-done");
    done_group.current_status = Some("completed".to_string());
    done_group.active_task_ids = strings(&["task-done", "task-live"]);
    model.execution_groups.push(done_group);
    model.tasks.push(TaskEntry { task_id: "task-done".to_string(), mission_id: None, title: None, current_status: Some("cancelled".to_string()) });
    model.tasks.push(TaskEntry { task_id: "task-live".to_string(), mission_id: None, title: None, current_status: Some("running".to_string()) });
    model.active_task_ids = strings(&["task-done", "task-live", "task-unknown"]);
    model.active_execution_group_ids = strings(&["mission-done", "mission-live"]);

    let mut summary = session_runtime_summary(&SessionSidecarExport {
        session_id: "s".to_string(),
        status: SessionSidecarStatus::Resumed,
        last_update: 1,
        execution_chain_ref: None,
        recovery_ref: None,
        chain: None,
        ownership_mission_id: Some("mission-done".to_string()),
        ownership_task_id: Some("task-done".to_string()),
        current_turn: None,
    });
    assert_eq!(summary.active_task_ids, strings(&["task-done"]));
    summary.recovery_ids = strings(&["r"]);
    let mut sessions = vec![summary];
    let mut workspaces = vec![WorkspaceRuntimeEntry {
        workspace_id: "w".to_string(),
        current_status: None,
        last_update: None,
        execution_chain_ref: None,
        recovery_ref: None,
        active_execution_group_ids: strings(&["mission-live", "mission-done"]),
        active_task_ids: strings(&["task-live"]),
        recovery_ids: Vec::new(),
        execution_chain_refs: Vec::new(),
    }];
    prune_terminal_runtime_live_ids(&mut model, &mut sessions, &mut workspaces);

    assert_eq!(model.active_task_ids, strings(&["task-live", "task-unknown"]));
    assert_eq!(model.active_execution_group_ids, strings(&["mission-live"]));
    assert_eq!(model.execution_groups[0].active_task_ids, strings(&["task-live"]));
    assert!(sessions[0].active_task_ids.is_empty());
    assert!(sessions[0].active_execution_group_ids.is_empty());
    assert_eq!(sessions[0].recovery_ids, strings(&["r"]));
    assert_eq!(workspaces[0].active_execution_group_ids, strings(&["mission-live"]));
    assert_eq!(workspaces[0].active_task_ids, strings(&["task-live"]));
}
