use magi_api::a_path::{APathDriver, ActionTaskStatus, DriveStep, RunCycleOutcome, A_PATH_CYCLE_LIMIT};
use magi_api::api_error::ApiError;
use magi_api::branch_plan::{
    chain_worker_id, plan_execution_branches, plan_turn_items, replanned_branch_specs, BranchSpec, BranchTaskFacts,
    ChainFacts, TurnItemFacts,
};
use magi_api::ordering::{sorted_unique, str_le};

fn spec(task_id: &str, is_primary: bool) -> BranchSpec {
    BranchSpec { task_id: task_id.to_string(), is_primary }
}

fn facts(title: &str, role: Option<&str>) -> Option<BranchTaskFacts> {
    Some(BranchTaskFacts {
        mission_id: "mission-1".to_string(),
        root_task_id: "task-root".to_string(),
        target_role: role.map(str::to_string),
        title: title.to_string(),
    })
}

fn chain() -> ChainFacts {
    ChainFacts {
        session_id: "session-1".to_string(),
        mission_id: "mission-1".to_string(),
        root_task_id: "task-root".to_string(),
        first_branch_worker: None,
        first_bound_worker: Some("worker-bound".to_string()),
        accepted_at: 1700,
        branch_task_ids: vec!["task-old".to_string(), "task-act".to_string()],
    }
}

#[test]
fn synchronous_drive_runs_cycles_until_complete_or_window_ends() {
    let (mut driver, first) = APathDriver::new();
    assert!(matches!(first, DriveStep::RunCycle));
    assert!(matches!(driver.after_cycle(RunCycleOutcome::Continue, false, "A 路径失败"), DriveStep::RunCycle));
    assert!(matches!(driver.after_cycle(RunCycleOutcome::AllComplete, false, "A 路径失败"), DriveStep::Judge));
    assert_eq!(driver.cycles, 2);
    assert!(driver.judge(Some(ActionTaskStatus::Completed), "Completed", "A 路径失败").unwrap().runner_started);
    match driver.judge(Some(ActionTaskStatus::Running), "Running", "A 路径失败") {
        Err(ApiError::InternalAssembly { context, detail }) => {
            assert_eq!(context, "A 路径失败");
            assert_eq!(detail, "同步任务未在窗口内完成: Running");
        }
        other => panic!("unexpected {other:?}"),
    }
    match driver.judge(None, "", "A 路径失败") {
        Err(ApiError::InternalAssembly { detail, .. }) => assert_eq!(detail, "action task 不存在"),
        other => panic!("unexpected {other:?}"),
    }

    let (mut windowed, _) = APathDriver::new();
    let mut last = DriveStep::RunCycle;
    for _ in 0..A_PATH_CYCLE_LIMIT {
        last = windowed.after_cycle(RunCycleOutcome::Continue, false, "x");
    }
    assert!(matches!(last, DriveStep::Judge));
    assert_eq!(windowed.cycles, 32);
}

#[test]
fn blocked_runner_is_judged_only_when_the_action_task_is_blocked() {
    let (mut driver, _) = APathDriver::new();
    assert!(matches!(driver.after_cycle(RunCycleOutcome::Blocked("[task-a]".to_string()), true, "t"), DriveStep::Judge));
    assert!(driver.judge(Some(ActionTaskStatus::Blocked), "Blocked", "t").is_ok());
    let (mut other, _) = APathDriver::new();
    match other.after_cycle(RunCycleOutcome::Blocked("[task-a]".to_string()), false, "t") {
        DriveStep::Fail(ApiError::InternalAssembly { detail, .. }) => assert_eq!(detail, "task runner blocked: [task-a]"),
        _ => panic!("expected failure"),
    }
    match other.after_cycle(RunCycleOutcome::Error("boom".to_string()), false, "t") {
        DriveStep::Fail(ApiError::InternalAssembly { context, detail }) => {
            assert_eq!(context, "t");
            assert_eq!(detail, "boom");
        }
        _ => panic!("expected failure"),
    }
}

#[test]
fn intake_replan_registers_new_branches_and_replaces_active_chain() {
    let specs = replanned_branch_specs("task-act", &vec!["task-leaf-1".to_string(), "task-leaf-2".to_string()]);
    assert_eq!(specs.len(), 3);
    assert!(specs[0].is_primary);
    assert_eq!(specs[2].task_id, "task-leaf-2");
    let facts = vec![facts("act", Some("architect")), facts("Leaf one", Some(" coder ")), facts("Leaf two", Some("tester"))];
    let plan = plan_execution_branches("session-1", &specs, &facts, &Some(chain()))
        .expect("registration")
        .expect("a plan");
    assert_eq!(plan.worker_id, "worker-bound");
    assert_eq!(plan.removed_task_ids, vec!["task-old".to_string()]);
    assert_eq!(plan.branches.len(), 3);
    assert_eq!(plan.branches[0].lane_id, None);
    assert_eq!(plan.branches[1].lane_id.as_deref(), Some("lane-task-leaf-1"));
    assert_eq!(plan.branches[1].lane_seq, Some(1));
    assert_eq!(plan.branches[1].role_id, "coder");
    assert_eq!(plan.lanes.len(), 2);
    assert_eq!(plan.lanes[1].lane_seq, 2);
    assert_eq!(plan.lanes[1].title, "Leaf two");

    let items = vec![
        TurnItemFacts { kind: "user_message".to_string(), task_id: Some("task-act".to_string()), item_seq: 1 },
        TurnItemFacts { kind: "worker_spawned".to_string(), task_id: Some("task-old".to_string()), item_seq: 2 },
        TurnItemFacts { kind: "worker_spawned".to_string(), task_id: Some("task-leaf-1".to_string()), item_seq: 3 },
    ];
    let threads = vec!["thread-coder".to_string(), "thread-tester".to_string()];
    let (keep, spawned) = plan_turn_items(&items, &specs, &plan.lanes, &threads, 1700);
    assert_eq!(keep, vec![true, false, true]);
    assert_eq!(spawned.len(), 1);
    assert_eq!(spawned[0].task_id, "task-leaf-2");
    assert_eq!(spawned[0].item_seq, 4);
    assert_eq!(spawned[0].item_id, "turn-item-worker-spawned-1700-2");
    assert_eq!(spawned[0].content, "已为 Leaf two 创建执行步骤。");
    assert_eq!(spawned[0].source_thread_id, "thread-tester");
}

#[test]
fn branch_registration_refusals() {
    let specs = vec![spec("task-act", true)];
    assert!(matches!(plan_execution_branches("session-1", &Vec::new(), &Vec::new(), &None), Ok(None)));
    match plan_execution_branches("session-1", &specs, &vec![facts("a", Some("r"))], &None) {
        Err(ApiError::InvalidInput(m)) => assert_eq!(m, "当前会话没有可注册任务的活跃执行链"),
        other => panic!("unexpected {other:?}"),
    }
    match plan_execution_branches("session-2", &specs, &vec![facts("a", Some("r"))], &Some(chain())) {
        Err(ApiError::InvalidInput(m)) => assert_eq!(m, "活跃执行链不属于当前会话"),
        other => panic!("unexpected {other:?}"),
    }
    match plan_execution_branches("session-1", &specs, &vec![None], &Some(chain())) {
        Err(ApiError::InvalidInput(m)) => assert_eq!(m, "待注册任务不存在: task-act"),
        other => panic!("unexpected {other:?}"),
    }
    let mut foreign = facts("a", Some("r"));
    if let Some(f) = foreign.as_mut() {
        f.mission_id = "mission-2".to_string();
    }
    match plan_execution_branches("session-1", &specs, &vec![foreign], &Some(chain())) {
        Err(ApiError::InvalidInput(m)) => assert_eq!(m, "任务 task-act 不属于当前执行链"),
        other => panic!("unexpected {other:?}"),
    }
    let mut unbound = chain();
    unbound.first_bound_worker = None;
    assert_eq!(chain_worker_id(&unbound), "worker-session-action-1700");
}

#[test]
fn sorted_unique_orders_and_deduplicates() {
    let sorted = sorted_unique(vec!["b".to_string(), "a".to_string(), "b".to_string(), "ab".to_string()]);
    assert_eq!(sorted, vec!["a".to_string(), "ab".to_string(), "b".to_string()]);
    assert!(str_le("a", "ab"));
    assert!(str_le("ab", "ab"));
    assert!(!str_le("b", "ab"));
    assert!(sorted_unique(Vec::new()).is_empty());
}
