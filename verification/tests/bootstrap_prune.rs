use magi_api::app_events::EventEnvelope;
use magi_api::bootstrap_prune::{
    current_scope, last_page, prune_initial_load_runtime_details, recovery_is_related, session_to_select,
    InitialLoadDetails, RecoveryActivityEntry,
    BOOTSTRAP_RECENT_EVENT_PAGE_SIZE, BOOTSTRAP_TIMELINE_PAGE_SIZE,
};
use magi_api::json::JsonValue;
use magi_api::recovery_read_model::{
    merge_workspace_sidecars, RecoveryReadModel, RecoveryStatus, WorkspaceRecoveryExport,
};
use magi_api::session_summary::{session_runtime_summary, SessionSidecarExport, SessionSidecarStatus};

fn event(id: &str, event_type: &str, session_id: Option<&str>) -> EventEnvelope {
    EventEnvelope {
        event_id: id.to_string(),
        event_type: event_type.to_string(),
        sequence: 1,
        occurred_at: 1,
        session_id: session_id.map(str::to_string),
        workspace_id: None,
        payload: JsonValue::Null,
    }
}

fn sidecar(session_id: &str, recovery_ref: Option<&str>) -> SessionSidecarExport {
    SessionSidecarExport {
        session_id: session_id.to_string(),
        status: SessionSidecarStatus::Bound,
        last_update: 1,
        execution_chain_ref: None,
        recovery_ref: recovery_ref.map(str::to_string),
        chain: None,
        ownership_mission_id: None,
        ownership_task_id: None,
        current_turn: None,
    }
}

fn recovery(recovery_ref: &str, session_id: Option<&str>, chain: Option<&str>) -> WorkspaceRecoveryExport {
    WorkspaceRecoveryExport {
        recovery_ref: recovery_ref.to_string(),
        workspace_id: "workspace-other".to_string(),
        status: RecoveryStatus::Ready,
        last_update: 1,
        session_id: session_id.map(str::to_string),
        mission_id: None,
        task_id: None,
        worker_id: None,
        execution_chain_ref: chain.map(str::to_string),
        public_diagnostic_summary: Some("other session recovery".to_string()),
    }
}

fn entry(recovery_id: &str, session_id: Option<&str>, chain: Option<&str>) -> RecoveryActivityEntry<u32> {
    RecoveryActivityEntry {
        recovery_id: recovery_id.to_string(),
        session_id: session_id.map(str::to_string),
        mission_id: None,
        execution_chain_ref: chain.map(str::to_string),
        detail: 7,
    }
}

fn no_entries() -> Vec<RecoveryActivityEntry<u32>> {
    Vec::new()
}

#[test]
fn bootstrap_first_load_drops_other_sessions_runtime_details() {
    let mut recoveries = RecoveryReadModel { workspaces: Vec::new(), summaries: Vec::new(), active_recovery_ids: Vec::new() };
    merge_workspace_sidecars(&mut recoveries, &vec![recovery("recovery-other", Some("session-other"), Some("chain-other"))]);
    let details = InitialLoadDetails {
        recent_events: vec![
            event("maintenance-1", "system.runtime.maintenance.status", Some("session-current")),
            event("system-started-1", "system.started", None),
            event("domain-1", "task.created", Some("session-current")),
        ],
        sessions: vec![
            session_runtime_summary(&sidecar("session-current", None)),
            session_runtime_summary(&sidecar("session-other", None)),
        ],
        recovery_summaries: recoveries.summaries,
        recovery_entries: no_entries(),
        active_recovery_ids: recoveries.active_recovery_ids,
        canonical_turns: vec!["turn-current".to_string()],
    };
    let (pruned, _) = prune_initial_load_runtime_details(details, Some("session-current"));
    assert_eq!(pruned.recent_events.len(), 1);
    assert_eq!(pruned.recent_events[0].event_type, "task.created");
    assert_eq!(pruned.sessions.len(), 1);
    assert_eq!(pruned.sessions[0].session_id, "session-current");
    assert!(pruned.recovery_entries.is_empty());
    assert!(pruned.recovery_summaries.is_empty());
    assert!(pruned.active_recovery_ids.is_empty());
    assert_eq!(pruned.canonical_turns.len(), 1);
}

#[test]
fn first_load_keeps_recoveries_related_to_the_current_session() {
    let mut recoveries = RecoveryReadModel { workspaces: Vec::new(), summaries: Vec::new(), active_recovery_ids: Vec::new() };
    merge_workspace_sidecars(
        &mut recoveries,
        &vec![
            recovery("recovery-own", Some("session-current"), None),
            recovery("recovery-ref", None, None),
            recovery("recovery-unrelated", Some("session-other"), None),
        ],
    );
    let details = InitialLoadDetails {
        recent_events: Vec::new(),
        sessions: vec![session_runtime_summary(&sidecar("session-current", Some("recovery-ref")))],
        recovery_summaries: recoveries.summaries,
        recovery_entries: vec![
            entry("recovery-own", Some("session-current"), None),
            entry("recovery-ref", None, None),
            entry("recovery-unrelated", Some("session-other"), None),
            entry("recovery-chain", None, Some("chain-elsewhere")),
        ],
        active_recovery_ids: recoveries.active_recovery_ids,
        canonical_turns: Vec::<String>::new(),
    };
    let (pruned, scope) = prune_initial_load_runtime_details(details, Some("session-current"));
    let entry_ids: Vec<&str> = pruned.recovery_entries.iter().map(|e| e.recovery_id.as_str()).collect();
    assert_eq!(entry_ids, vec!["recovery-own", "recovery-ref"]);
    assert_eq!(pruned.recovery_entries[0].detail, 7);
    let ids: Vec<&str> = pruned.recovery_summaries.iter().map(|s| s.recovery_id.as_str()).collect();
    assert_eq!(ids, vec!["recovery-own", "recovery-ref"]);
    assert_eq!(pruned.active_recovery_ids, vec!["recovery-own".to_string(), "recovery-ref".to_string()]);
    assert!(recovery_is_related(&scope, "x", &None, &None, &None) == false);
    assert!(recovery_is_related(&scope, "recovery-ref", &None, &None, &None));
}

#[test]
fn first_load_without_a_current_session_shows_nothing() {
    let details = InitialLoadDetails {
        recent_events: vec![event("domain-1", "task.created", Some("session-current"))],
        sessions: vec![session_runtime_summary(&sidecar("session-current", None))],
        recovery_summaries: Vec::new(),
        recovery_entries: no_entries(),
        active_recovery_ids: vec!["recovery-1".to_string()],
        canonical_turns: Vec::<String>::new(),
    };
    let (pruned, scope) = prune_initial_load_runtime_details(details, None);
    assert!(pruned.recent_events.is_empty());
    assert!(pruned.sessions.is_empty());
    assert!(pruned.active_recovery_ids.is_empty());
    assert!(scope.session_id.is_none());
    assert!(current_scope(None, &Vec::new()).recovery_ids.is_empty());
}

#[test]
fn first_load_keeps_the_last_page_of_events_and_timeline() {
    let events: Vec<EventEnvelope> = (0..205).map(|i| event(&format!("e{i}"), "task.updated", Some("s"))).collect();
    let details = InitialLoadDetails {
        recent_events: events,
        sessions: Vec::new(),
        recovery_summaries: Vec::new(),
        recovery_entries: no_entries(),
        active_recovery_ids: Vec::new(),
        canonical_turns: Vec::<String>::new(),
    };
    let (pruned, _) = prune_initial_load_runtime_details(details, Some("s"));
    assert_eq!(pruned.recent_events.len(), BOOTSTRAP_RECENT_EVENT_PAGE_SIZE);
    assert_eq!(pruned.recent_events[0].event_id, "e5");
    let timeline: Vec<u32> = (0..60).collect();
    let (page, has_more) = last_page(timeline, BOOTSTRAP_TIMELINE_PAGE_SIZE);
    assert!(has_more);
    assert_eq!(page.len(), 50);
    assert_eq!(page[0], 10);
    let (short, more) = last_page(vec![1, 2, 3], BOOTSTRAP_TIMELINE_PAGE_SIZE);
    assert!(!more);
    assert_eq!(short, vec![1, 2, 3]);
}

#[test]
fn first_load_drops_the_current_turn_details() {
    let mut with_turn = sidecar("session-current", None);
    with_turn.current_turn = Some(magi_api::session_summary::TurnExport {
        turn_id: "turn-current".to_string(),
        turn_seq: 1,
        accepted_at: 1,
        completed_at: None,
        status: "running".to_string(),
        user_message: Some("current detail".to_string()),
        items: vec![magi_api::turn_items::TurnItemExport {
            item_id: "item-current".to_string(),
            item_seq: 1,
            kind: "assistant_final".to_string(),
            status: "completed".to_string(),
            source: "orchestrator".to_string(),
            title: None,
            content: Some("current detail".to_string()),
            task_id: None,
            worker_id: None,
            role_id: None,
            task_role_id: None,
            tool_call_id: None,
            tool_name: None,
            tool_status: None,
            tool_arguments: magi_api::turn_items::ToolText { text: None, public: None },
            tool_result: magi_api::turn_items::ToolText { text: None, public: None },
            tool_error: magi_api::turn_items::ToolText { text: None, public: None },
            request_id: None,
            user_message_id: None,
            placeholder_message_id: None,
            timeline_entry_id: None,
            source_thread_id: "thread-current".to_string(),
        }],
    });
    let summary = session_runtime_summary(&with_turn);
    assert!(summary.current_turn.is_some());
    assert_eq!(summary.turn_items.len(), 1);
    let details = InitialLoadDetails {
        recent_events: Vec::new(),
        sessions: vec![summary],
        recovery_summaries: Vec::new(),
        recovery_entries: no_entries(),
        active_recovery_ids: Vec::new(),
        canonical_turns: Vec::<String>::new(),
    };
    let (pruned, _) = prune_initial_load_runtime_details(details, Some("session-current"));
    assert_eq!(pruned.sessions.len(), 1);
    assert!(pruned.sessions[0].current_turn.is_none());
    assert!(pruned.sessions[0].turn_items.is_empty());
}

#[test]
fn a_requested_session_is_selected_only_where_the_store_has_it() {
    let ids = vec!["session-a".to_string(), "session-b".to_string()];
    assert_eq!(session_to_select(Some("session-b"), &ids), Some("session-b".to_string()));
    assert_eq!(session_to_select(Some("session-x"), &ids), None);
    assert_eq!(session_to_select(None, &ids), None);
    assert_eq!(session_to_select(Some("session-a"), &Vec::new()), None);
}
