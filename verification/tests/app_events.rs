use magi_api::app_events::{browser_turn_status_error, browser_tool_item_id, session_is_running};
use magi_api::app_events::{browser_tool_call_id, browser_tool_params_error};
use magi_api::app_events::browser_tool_item_status;
use magi_api::browser::ExecutionResultStatus;
use magi_api::app_events::{queued_turn_event_id, replayed_turn_ids, turn_start_route, TurnStartRoute};
use magi_api::app_events::{canonical_replay_answer, connection_error_protocol, queued_replay_answer, browser_tool_item_status_of};
use magi_api::api_error::{api_error_protocol, ApiError, ProtocolErrorKind};
use magi_api::app_events::{
    event_matches, filter_snapshot, parse_subscription_scope, request_matches_canonical_turn,
    request_matches_queued_turn, request_timeout, snapshot_requires_resync, CanonicalTurnItemFacts,
    ConnectionError, ConnectionState, EventEnvelope, EventStreamSnapshot, EventSubscription,
    RequestControl, RequestTermination,
};
use magi_api::json::{parse_json, JsonValue};

fn event(sequence: u64, session_id: Option<&str>, workspace_id: Option<&str>) -> EventEnvelope {
    EventEnvelope {
        event_id: format!("event-{sequence}"),
        event_type: "session.changed".to_string(),
        sequence,
        occurred_at: sequence,
        session_id: session_id.map(str::to_string),
        workspace_id: workspace_id.map(str::to_string),
        payload: JsonValue::Object(vec![("sequence".to_string(), JsonValue::Number(sequence.to_string()))]),
    }
}

#[test]
fn event_subscription_requires_at_least_one_scope() {
    let error = parse_subscription_scope(None, None).expect_err("未绑定会话或工作区不能订阅全局事件");
    assert!(error.contains("至少需要"));
}

#[test]
fn event_filter_keeps_only_the_requested_scope() {
    let subscription = EventSubscription {
        active: true,
        session_id: Some("session-1".to_string()),
        workspace_id: Some("workspace-1".to_string()),
        after_sequence: 0,
    };
    assert!(event_matches(&event(1, Some("session-1"), Some("workspace-1")), &subscription));
    assert!(!event_matches(&event(2, Some("session-2"), Some("workspace-1")), &subscription));
    assert!(!event_matches(&event(3, Some("session-1"), Some("workspace-2")), &subscription));
}

#[test]
fn expired_event_cursor_requires_resync() {
    let snapshot = EventStreamSnapshot {
        next_sequence: 11,
        recent_events: vec![event(5, Some("session-1"), Some("workspace-1"))],
    };
    assert!(snapshot_requires_resync(&snapshot, 3));
    assert!(!snapshot_requires_resync(&snapshot, 4));
    assert!(!snapshot_requires_resync(&snapshot, 0));
}

#[test]
fn queued_turn_replay_requires_the_persisted_complete_request_fingerprint() {
    let fingerprint = "sha256:request-queued-fingerprint";
    assert!(request_matches_queued_turn(Some(fingerprint), Some(fingerprint)));

    let changed = "sha256:request-queued-fingerprint-en-US";
    assert!(!request_matches_queued_turn(Some(changed), Some(fingerprint)));

    assert!(!request_matches_queued_turn(Some(fingerprint), None));
}

#[test]
fn canonical_turn_replay_requires_the_same_complete_request_fingerprint() {
    let fingerprint = "sha256:request-canonical-fingerprint";
    let turn = vec![CanonicalTurnItemFacts { item_id: "item-1".to_string(),
        is_user_message: true,
        request_fingerprint: Some(JsonValue::Str(fingerprint.to_string())),
    }];
    assert!(request_matches_canonical_turn(Some(fingerprint), &turn));

    let changed = "sha256:request-canonical-fingerprint-read-only";
    assert!(!request_matches_canonical_turn(Some(changed), &turn));

    let legacy = vec![CanonicalTurnItemFacts { item_id: "item-2".to_string(), is_user_message: true, request_fingerprint: None }];
    assert!(!request_matches_canonical_turn(Some(fingerprint), &legacy));
}

#[test]
fn canonical_turn_reads_the_first_user_message_only() {
    let turn = vec![
        CanonicalTurnItemFacts { item_id: "item-3".to_string(), is_user_message: false, request_fingerprint: Some(JsonValue::Str("fp".to_string())) },
        CanonicalTurnItemFacts { item_id: "item-4".to_string(), is_user_message: true, request_fingerprint: Some(JsonValue::Str("other".to_string())) },
        CanonicalTurnItemFacts { item_id: "item-5".to_string(), is_user_message: true, request_fingerprint: Some(JsonValue::Str("fp".to_string())) },
    ];
    assert!(!request_matches_canonical_turn(Some("fp"), &turn));
    assert!(request_matches_canonical_turn(Some("other"), &turn));
    assert!(!request_matches_canonical_turn(None, &turn));
    assert!(!request_matches_canonical_turn(Some("fp"), &Vec::new()));
    let numeric = vec![CanonicalTurnItemFacts { item_id: "item-6".to_string(),
        is_user_message: true,
        request_fingerprint: Some(JsonValue::Number("7".to_string())),
    }];
    assert!(!request_matches_canonical_turn(Some("7"), &numeric));
}

#[test]
fn subscription_scope_trims_and_drops_blank_ids() {
    assert_eq!(
        parse_subscription_scope(Some("  session-1 "), Some("   ")),
        Ok((Some("session-1".to_string()), None))
    );
    assert_eq!(
        parse_subscription_scope(None, Some("workspace-1")),
        Ok((None, Some("workspace-1".to_string())))
    );
    assert!(parse_subscription_scope(Some(" "), Some("")).is_err());
}

#[test]
fn resync_falls_back_to_the_next_sequence_without_recent_events() {
    let empty = EventStreamSnapshot { next_sequence: 11, recent_events: Vec::new() };
    assert!(snapshot_requires_resync(&empty, 9));
    assert!(!snapshot_requires_resync(&empty, 10));
    assert!(!snapshot_requires_resync(&empty, u64::MAX));
}

#[test]
fn filtered_snapshot_keeps_scope_and_later_events_in_order() {
    let snapshot = EventStreamSnapshot {
        next_sequence: 6,
        recent_events: vec![
            event(1, Some("session-1"), None),
            event(2, Some("session-2"), None),
            event(3, Some("session-1"), Some("workspace-1")),
            event(5, Some("session-1"), None),
        ],
    };
    let subscription = EventSubscription {
        active: true,
        session_id: Some("session-1".to_string()),
        workspace_id: None,
        after_sequence: 0,
    };
    let filtered = filter_snapshot(&snapshot, 1, &subscription);
    assert_eq!(filtered.next_sequence, 6);
    let sequences: Vec<u64> = filtered.recent_events.iter().map(|event| event.sequence).collect();
    assert_eq!(sequences, vec![3, 5]);
}

#[test]
fn request_timeout_defaults_and_bounds() {
    assert_eq!(request_timeout(None), Ok(120000));
    assert_eq!(request_timeout(Some(100)), Ok(100));
    assert_eq!(request_timeout(Some(600000)), Ok(600000));
    assert!(request_timeout(Some(99)).is_err());
    assert!(request_timeout(Some(600001)).is_err());
}

#[test]
fn request_termination_first_cancel_or_timeout_wins() {
    let mut control = RequestControl::new();
    assert!(!control.is_cancelled());
    control.timeout();
    control.cancel();
    assert_eq!(control.termination, RequestTermination::TimedOut);
    assert!(control.is_cancelled());

    let mut other = RequestControl::new();
    other.cancel();
    other.timeout();
    assert_eq!(other.termination, RequestTermination::Cancelled);
}

#[test]
fn connection_handshake_orders_initialize_initialized_and_subscribe() {
    let snapshot = EventStreamSnapshot {
        next_sequence: 4,
        recent_events: vec![event(2, Some("session-1"), None), event(3, Some("session-2"), None)],
    };
    let mut connection = ConnectionState::new();
    assert_eq!(
        connection.subscribe(Some("session-1"), None, None, &snapshot).err(),
        Some(ConnectionError::NotInitialized("连接尚未完成 initialize/initialized 握手".to_string()))
    );
    connection.notify("initialized");
    assert!(!connection.initialized);
    assert_eq!(
        connection.initialize(" ", None, (1, 0), true),
        Err(ConnectionError::InvalidParams("clientInfo.name 不能为空".to_string()))
    );
    assert_eq!(
        connection.initialize("desktop", Some((2, 1)), (1, 0), false),
        Err(ConnectionError::InvalidParams("协议版本不兼容: client=2.1 server=1.0".to_string()))
    );
    assert_eq!(connection.initialize("desktop", Some((1, 0)), (1, 0), true), Ok(()));
    assert_eq!(
        connection.initialize("desktop", None, (1, 0), true),
        Err(ConnectionError::AlreadyInitialized("当前连接已经初始化".to_string()))
    );
    assert!(connection.require_initialized().is_some());
    connection.notify("initialized");
    assert!(connection.require_initialized().is_none());

    assert!(matches!(
        connection.subscribe(None, Some(" "), None, &snapshot),
        Err(ConnectionError::InvalidParams(_))
    ));
    let outcome = connection.subscribe(Some("session-1"), None, Some(1), &snapshot).expect("subscribe");
    assert!(!outcome.resync_required);
    assert_eq!(outcome.next_sequence, 4);
    assert_eq!(outcome.snapshot.recent_events.len(), 1);
    assert_eq!(outcome.snapshot.recent_events[0].sequence, 2);
    assert!(connection.subscription.active);
    assert_eq!(connection.subscription.after_sequence, 3);
    assert_eq!(connection.subscription.session_id.as_deref(), Some("session-1"));
}

#[test]
fn browser_tool_call_ids_and_params() {
    assert_eq!(browser_tool_call_id(Some(" call-1 "), "7"), " call-1 ");
    assert_eq!(browser_tool_call_id(Some("  "), "7"), "rpc-7");
    assert_eq!(browser_tool_call_id(None, "req"), "rpc-req");
    assert_eq!(browser_tool_params_error("browser_click", 1), None);
    assert_eq!(
        browser_tool_params_error(" ", 1).as_deref(),
        Some("tool 必须非空且 arguments 必须是对象")
    );
    assert!(browser_tool_params_error("browser_click", 0).is_some());
}

#[test]
fn browser_tool_item_status_maps_runtime_status() {
    assert_eq!(browser_tool_item_status(true, ExecutionResultStatus::Succeeded, "{}"), "cancelled");
    assert_eq!(browser_tool_item_status(false, ExecutionResultStatus::Succeeded, "{}"), "completed");
    assert_eq!(browser_tool_item_status(false, ExecutionResultStatus::NeedsApproval, "{}"), "blocked");
    assert_eq!(browser_tool_item_status(false, ExecutionResultStatus::Cancelled, "{}"), "cancelled");
    assert_eq!(browser_tool_item_status(false, ExecutionResultStatus::Rejected, "{}"), "failed");
    assert_eq!(
        browser_tool_item_status(false, ExecutionResultStatus::Failed, r#"{"status":"indeterminate","code":"x"}"#),
        "indeterminate"
    );
    assert_eq!(browser_tool_item_status(false, ExecutionResultStatus::Failed, "not json"), "failed");
    assert_eq!(
        browser_tool_item_status(false, ExecutionResultStatus::Succeeded, r#"{"status":"indeterminate"}"#),
        "completed"
    );
}

#[test]
fn turn_start_routes_replays_and_conflicts() {
    let turn = vec![CanonicalTurnItemFacts { item_id: "item-7".to_string(),
        is_user_message: true,
        request_fingerprint: Some(JsonValue::Str("fp".to_string())),
    }];
    assert_eq!(turn_start_route(Some("fp"), Some(&turn), Some(Some("fp"))), TurnStartRoute::ReplayCanonical);
    assert_eq!(
        turn_start_route(Some("other"), Some(&turn), None),
        TurnStartRoute::Conflict("requestId 已绑定另一份 Turn，请为新请求生成新的 requestId".to_string())
    );
    assert_eq!(turn_start_route(Some("fp"), None, Some(Some("fp"))), TurnStartRoute::ReplayQueued);
    assert_eq!(
        turn_start_route(Some("fp"), None, Some(None)),
        TurnStartRoute::Conflict("requestId 已绑定另一份排队 Turn，请为新请求生成新的 requestId".to_string())
    );
    assert_eq!(turn_start_route(None, None, None), TurnStartRoute::Submit);
    assert_eq!(
        replayed_turn_ids("session-1", 42),
        ("timeline-session-1-42".to_string(), "event-session-turn-task-42".to_string())
    );
    assert_eq!(queued_turn_event_id(42), "event-session-turn-queued-42");
}

#[test]
fn browser_tools_run_only_within_a_running_turn() {
    assert_eq!(browser_turn_status_error(" Running "), None);
    assert_eq!(browser_turn_status_error("STREAMING"), None);
    assert_eq!(browser_turn_status_error("queued"), None);
    assert_eq!(
        browser_turn_status_error("completed").as_deref(),
        Some("当前 Turn 已结束，不能执行浏览器工具: completed")
    );
    assert!(browser_turn_status_error("").is_some());
    assert_eq!(browser_tool_item_id("call-9"), "browser-tool-call-9");
}

#[test]
fn session_runs_while_its_current_turn_has_not_ended() {
    assert!(!session_is_running(None));
    assert!(session_is_running(Some("running")));
    assert!(session_is_running(Some("waiting_approval")));
    assert!(!session_is_running(Some(" Completed ")));
    assert!(!session_is_running(Some("superseded")));
    assert!(!session_is_running(Some("INTERRUPTED")));
}

#[test]
fn no_notification_opens_a_connection_before_initialize() {
    let mut connection = ConnectionState::new();
    for method in ["initialized", "events/ping", "initialized"] {
        connection.notify(method);
        assert!(connection.require_initialized().is_some());
    }
    assert!(!connection.initialize_seen);
}

#[test]
fn a_bound_request_id_is_never_submitted_again() {
    let turn = vec![CanonicalTurnItemFacts { item_id: "item-8".to_string(), is_user_message: true, request_fingerprint: None }];
    assert!(matches!(turn_start_route(Some("fp"), Some(&turn), None), TurnStartRoute::Conflict(_)));
    assert!(matches!(turn_start_route(None, None, Some(None)), TurnStartRoute::Conflict(_)));
    assert_eq!(turn_start_route(Some("fp"), None, Some(Some("fp"))), TurnStartRoute::ReplayQueued);
    assert_eq!(turn_start_route(Some("fp"), None, None), TurnStartRoute::Submit);
}

#[test]
fn subscription_delivers_whole_copies_of_its_events() {
    let snapshot = EventStreamSnapshot {
        next_sequence: 4,
        recent_events: vec![event(2, Some("session-1"), None), event(3, Some("session-2"), None)],
    };
    let mut connection = ConnectionState::new();
    assert_eq!(connection.initialize("desktop", None, (1, 0), true), Ok(()));
    connection.notify("initialized");
    let outcome = connection.subscribe(Some("session-1"), None, Some(1), &snapshot).expect("subscribed");
    assert_eq!(outcome.snapshot.next_sequence, 4);
    assert_eq!(outcome.snapshot.recent_events.len(), 1);
    let delivered = &outcome.snapshot.recent_events[0];
    let original = &snapshot.recent_events[0];
    assert_eq!(delivered.event_id, original.event_id);
    assert_eq!(delivered.event_type, original.event_type);
    assert_eq!(delivered.occurred_at, original.occurred_at);
    assert_eq!(delivered.sequence, 2);
    assert_eq!(delivered.session_id.as_deref(), Some("session-1"));
}

#[test]
fn replayed_requests_are_answered_with_their_stored_turn() {
    let turn = vec![
        CanonicalTurnItemFacts { item_id: "item-system".to_string(), is_user_message: false, request_fingerprint: None },
        CanonicalTurnItemFacts {
            item_id: "user-canonical-replay".to_string(),
            is_user_message: true,
            request_fingerprint: Some(JsonValue::Str("fp".to_string())),
        },
    ];
    let answer = canonical_replay_answer("session-1", "turn-canonical-replay", 42, &turn);
    assert_eq!(answer.kind, "accepted");
    assert!(answer.replayed);
    assert_eq!(answer.entry_id, "timeline-session-1-42");
    assert_eq!(answer.event_id, "event-session-turn-task-42");
    assert_eq!(answer.turn_id.as_deref(), Some("turn-canonical-replay"));
    assert_eq!(answer.user_message_item_id.as_deref(), Some("user-canonical-replay"));
    let queued = queued_replay_answer("queue-1", 7, Some("user-queued"));
    assert_eq!(queued.kind, "queued");
    assert!(queued.replayed);
    assert_eq!(queued.entry_id, "queue-1");
    assert_eq!(queued.event_id, "event-session-turn-queued-7");
    assert_eq!(queued.turn_id, None);
    assert_eq!(queued.user_message_item_id.as_deref(), Some("user-queued"));
}

#[test]
fn refused_requests_are_answered_with_their_protocol_error() {
    let e = connection_error_protocol(ConnectionError::NotInitialized("x".to_string()));
    assert_eq!(e.kind, ProtocolErrorKind::NotInitialized);
    assert_eq!(e.message, "x");
    assert_eq!(e.retryable, None);
    assert_eq!(connection_error_protocol(ConnectionError::AlreadyInitialized("y".to_string())).kind, ProtocolErrorKind::AlreadyInitialized);
    assert_eq!(connection_error_protocol(ConnectionError::InvalidParams("z".to_string())).kind, ProtocolErrorKind::InvalidParams);
    assert_eq!(api_error_protocol(&ApiError::InvalidInput("bad".to_string())), (ProtocolErrorKind::InvalidParams, None));
    assert_eq!(
        api_error_protocol(&ApiError::NotFound { resource: "workspace".to_string(), id: "w".to_string() }),
        (ProtocolErrorKind::SessionNotFound, None)
    );
    assert_eq!(
        api_error_protocol(&ApiError::InternalAssembly { context: "c".to_string(), detail: "d".to_string() }),
        (ProtocolErrorKind::Internal, Some(true))
    );
}

#[test]
fn browser_item_status_reads_the_parsed_payload() {
    let indeterminate = parse_json(r#"{"status":"indeterminate"}"#);
    assert_eq!(browser_tool_item_status_of(false, ExecutionResultStatus::Failed, &indeterminate), "indeterminate");
    assert_eq!(browser_tool_item_status_of(false, ExecutionResultStatus::Failed, &None), "failed");
    assert_eq!(browser_tool_item_status_of(true, ExecutionResultStatus::Succeeded, &indeterminate), "cancelled");
}
