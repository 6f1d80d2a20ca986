use magi_api::api_error::ApiError;
use magi_api::dispatch_plan::{
    dispatch_execution_goal, dispatch_ids, plan_dispatch_turn, DispatchRequestFacts, DispatchStep,
};

fn request(user_message_id: Option<&str>) -> DispatchRequestFacts {
    DispatchRequestFacts {
        accepted_at: 1700,
        entry_id: "timeline-1".to_string(),
        trimmed_text: Some("inspect browser".to_string()),
        request_id: Some("request-1".to_string()),
        user_message_id: user_message_id.map(str::to_string),
        placeholder_message_id: Some("placeholder-1".to_string()),
    }
}

fn step(task_id: &str, role: &str, title: Option<&str>, thread: &str) -> DispatchStep {
    DispatchStep {
        task_id: task_id.to_string(),
        target_role: Some(role.to_string()),
        title: title.map(str::to_string),
        thread_id: thread.to_string(),
    }
}

#[test]
fn task_requires_non_empty_execution_goal() {
    assert_eq!(dispatch_execution_goal(Some("  build it  ")).ok(), Some("build it".to_string()));
    match dispatch_execution_goal(Some("   ")) {
        Err(ApiError::InvalidInput(message)) => assert_eq!(message, "任务派发必须提供非空 execution_goal"),
        other => panic!("unexpected {other:?}"),
    }
    assert!(dispatch_execution_goal(None).is_err());
}

#[test]
fn dispatch_ids_are_named_after_the_acceptance_time() {
    let ids = dispatch_ids(1700);
    assert_eq!(ids.default_mission_id, "mission-session-action-1700");
    assert_eq!(ids.worker_id, "worker-session-action-1700");
    assert_eq!(ids.objective_task_id, "task-obj-1700");
    assert_eq!(ids.action_task_id, "task-act-1700");
    assert_eq!(ids.execution_chain_ref, "session-action-chain-1700");
    assert_eq!(ids.turn_id, "turn-session-action-1700");
}

#[test]
fn pure_chat_dispatch_has_only_the_user_message() {
    let ids = dispatch_ids(1700);
    let plan = plan_dispatch_turn(&request(None), &ids, "thread-orchestrator", &Vec::new());
    assert_eq!(plan.registrations.len(), 1);
    assert!(plan.registrations[0].is_primary);
    assert_eq!(plan.registrations[0].task_id, "task-act-1700");
    assert_eq!(plan.registrations[0].thread_id, "thread-orchestrator");
    assert!(plan.lanes.is_empty());
    assert_eq!(plan.items.len(), 1);
    let user = &plan.items[0];
    assert_eq!(user.item_id, "turn-item-user-1700");
    assert_eq!(user.item_seq, 1);
    assert_eq!(user.kind, "user_message");
    assert_eq!(user.status, "completed");
    assert_eq!(user.source, "user");
    assert_eq!(user.content.as_deref(), Some("inspect browser"));
    assert_eq!(user.task_id.as_deref(), Some("task-act-1700"));
    assert_eq!(user.timeline_entry_id.as_deref(), Some("timeline-1"));
    assert_eq!(user.source_thread_id, "thread-orchestrator");
}

#[test]
fn task_turn_keeps_user_message_on_mainline_and_routes_workers_to_drawer() {
    let ids = dispatch_ids(1700);
    let steps = vec![
        step("task-a", " coder ", Some("Write code"), "thread-coder"),
        step("task-b", "tester", None, "thread-tester"),
    ];
    let plan = plan_dispatch_turn(&request(Some("user-msg-1")), &ids, "thread-orchestrator", &steps);
    assert_eq!(plan.items[0].item_id, "user-msg-1");
    assert_eq!(plan.items[0].source_thread_id, "thread-orchestrator");

    assert_eq!(plan.registrations.len(), 3);
    assert_eq!(plan.registrations[2].lane_id.as_deref(), Some("lane-task-b"));
    assert_eq!(plan.registrations[2].lane_seq, Some(2));
    assert_eq!(plan.registrations[2].thread_id, "thread-tester");

    assert_eq!(plan.lanes.len(), 2);
    assert_eq!(plan.lanes[0].lane_id, "lane-task-a");
    assert_eq!(plan.lanes[0].lane_seq, 1);
    assert_eq!(plan.lanes[0].role_id, "coder");
    assert_eq!(plan.lanes[0].title, "Write code");
    assert_eq!(plan.lanes[1].title, "task-b");
    assert_eq!(plan.lanes[1].worker_id, "worker-session-action-1700");

    let spawned = &plan.items[2];
    assert_eq!(spawned.item_id, "turn-item-worker-spawned-1700-1");
    assert_eq!(spawned.item_seq, 3);
    assert_eq!(spawned.kind, "worker_spawned");
    assert_eq!(spawned.status, "pending");
    assert_eq!(spawned.source, "worker-session-action-1700");
    assert_eq!(spawned.title.as_deref(), Some("task-b"));
    assert_eq!(spawned.content.as_deref(), Some("已为 task-b 创建执行步骤。"));
    assert_eq!(spawned.role_id.as_deref(), Some("tester"));
    assert_eq!(spawned.lane_seq, Some(2));
    assert_eq!(spawned.timeline_entry_id, None);
    assert_eq!(spawned.source_thread_id, "thread-tester");
    assert_eq!(spawned.placeholder_message_id.as_deref(), Some("placeholder-1"));
}

#[test]
fn repeated_step_takes_the_first_lane_title_and_thread() {
    let ids = dispatch_ids(5);
    let steps = vec![
        step("task-a", "coder", Some("First"), "thread-1"),
        step("task-a", "coder", Some("Second"), "thread-2"),
    ];
    let plan = plan_dispatch_turn(&request(None), &ids, "thread-o", &steps);
    assert_eq!(plan.registrations[2].lane_seq, Some(1));
    assert_eq!(plan.lanes[1].lane_seq, 2);
    assert_eq!(plan.lanes[1].title, "Second");
    assert_eq!(plan.items[2].title.as_deref(), Some("First"));
    assert_eq!(plan.items[2].source_thread_id, "thread-1");
}
