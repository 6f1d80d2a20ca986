use magi_api::browser_lease::{
    browser_call_ownership, browser_lease_decision, browser_lease_id, browser_session_plan, browser_tab_choice,
    lease_conflict_error, BrowserSessionPlan, ExecutionOwnership, GoalControlBinding, LeaseDecision, LeaseFacts,
    TabFacts,
};
use magi_api::json::{parse_json, JsonValue};

fn object(text: &str) -> Vec<(String, JsonValue)> {
    match parse_json(text).expect("test JSON should parse") {
        JsonValue::Object(entries) => entries,
        other => panic!("not an object: {other:?}"),
    }
}

fn owner(task: Option<&str>, worker: Option<&str>) -> ExecutionOwnership {
    ExecutionOwnership {
        session_id: Some("session-1".to_string()),
        workspace_id: Some("workspace-1".to_string()),
        mission_id: Some("mission-1".to_string()),
        task_id: task.map(str::to_string),
        worker_id: worker.map(str::to_string),
        execution_chain_ref: Some("chain-1".to_string()),
    }
}

#[test]
fn call_ownership_overrides_session_workspace_task_and_worker() {
    let stored = owner(Some("task-stored"), Some("worker-stored"));
    let merged = browser_call_ownership(Some(&stored), "session-2", None, Some("task-call"), None);
    assert_eq!(merged.session_id.as_deref(), Some("session-2"));
    assert_eq!(merged.workspace_id, None);
    assert_eq!(merged.mission_id.as_deref(), Some("mission-1"));
    assert_eq!(merged.task_id.as_deref(), Some("task-call"));
    assert_eq!(merged.worker_id.as_deref(), Some("worker-stored"));
    assert_eq!(merged.execution_chain_ref.as_deref(), Some("chain-1"));
    let fresh = browser_call_ownership(None, "session-3", Some("workspace-9"), None, Some("worker-call"));
    assert_eq!(fresh.mission_id, None);
    assert_eq!(fresh.task_id, None);
    assert_eq!(fresh.worker_id.as_deref(), Some("worker-call"));
    assert_eq!(fresh.workspace_id.as_deref(), Some("workspace-9"));
}

#[test]
fn lease_is_reused_replaced_or_refused() {
    let me = owner(Some("task-1"), Some("worker-1"));
    let goal = Some(GoalControlBinding { goal_id: "goal-1".to_string(), control_revision: 2 });
    let lease = LeaseFacts { owner: owner(Some("task-1"), Some("worker-1")), turn_id: "turn-1".to_string(), goal_binding: Some(GoalControlBinding { goal_id: "goal-1".to_string(), control_revision: 2 }), expires_at: 100 };
    assert_eq!(browser_lease_decision(None, &me, "turn-1", &goal, 10), LeaseDecision::Acquire);
    assert_eq!(browser_lease_decision(Some(&lease), &me, "turn-1", &goal, 10), LeaseDecision::Reuse);
    assert_eq!(browser_lease_decision(Some(&lease), &me, "turn-1", &goal, 100), LeaseDecision::Replace);
    assert_eq!(browser_lease_decision(Some(&lease), &me, "turn-2", &goal, 10), LeaseDecision::Replace);
    assert_eq!(browser_lease_decision(Some(&lease), &me, "turn-1", &None, 10), LeaseDecision::Replace);
    let other = owner(Some("task-1"), Some("worker-2"));
    assert_eq!(browser_lease_decision(Some(&lease), &other, "turn-1", &goal, 10), LeaseDecision::Conflict);
    let error = lease_conflict_error();
    assert_eq!(error.code, "browser_control_lease_conflict");
    assert_eq!(browser_lease_id(5, 6), "browser-lease-5-6");
}

#[test]
fn tab_choice_checks_the_named_tab_or_takes_the_first_known_one() {
    let tab = |id: &str, session: &str, usable: bool| TabFacts {
        tab_id: id.to_string(),
        browser_session_id: session.to_string(),
        usable,
    };
    let named = object(r#"{"tab_id":"tab-1"}"#);
    assert_eq!(browser_tab_choice(&named, Some(&tab("tab-1", "bs-1", true)), "bs-1", &Vec::new()).ok(), Some(Some("tab-1".to_string())));
    assert_eq!(browser_tab_choice(&named, None, "bs-1", &Vec::new()).unwrap_err().code, "browser_tab_not_found");
    assert_eq!(browser_tab_choice(&named, Some(&tab("tab-1", "bs-2", true)), "bs-1", &Vec::new()).unwrap_err().code, "browser_tab_scope_mismatch");
    assert_eq!(browser_tab_choice(&named, Some(&tab("tab-1", "bs-1", false)), "bs-1", &Vec::new()).unwrap_err().code, "browser_tab_not_ready");

    let none = object(r#"{}"#);
    let lookups = vec![None, Some(tab("tab-2", "bs-1", true)), Some(tab("tab-3", "bs-1", true))];
    assert_eq!(browser_tab_choice(&none, None, "bs-1", &lookups).ok(), Some(Some("tab-2".to_string())));
    let closed_first = vec![Some(tab("tab-2", "bs-1", false)), Some(tab("tab-3", "bs-1", true))];
    assert_eq!(browser_tab_choice(&none, None, "bs-1", &closed_first).ok(), Some(None));
    assert_eq!(browser_tab_choice(&none, None, "bs-1", &Vec::new()).ok(), Some(None));
}

#[test]
fn a_call_reuses_its_browser_session_only_within_its_workspace() {
    match browser_session_plan("s-1", None, Some("w-1")) {
        Ok(BrowserSessionPlan::Create { browser_session_id }) => {
            assert_eq!(browser_session_id, "browser-tool-session-s-1")
        },
        _ => panic!("a session is created where none is held"),
    }
    assert!(matches!(browser_session_plan("s-1", Some(Some("w-1")), Some("w-1")), Ok(BrowserSessionPlan::Reuse)));
    assert!(matches!(browser_session_plan("s-1", Some(None), None), Ok(BrowserSessionPlan::Reuse)));
    let error = match browser_session_plan("s-1", Some(Some("w-1")), Some("w-2")) {
        Err(error) => error,
        Ok(_) => panic!("another workspace's session is refused"),
    };
    assert_eq!(error.code, "browser_workspace_scope_mismatch");
    assert!(browser_session_plan("s-1", Some(None), Some("w-1")).is_err());
}
