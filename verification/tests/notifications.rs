use magi_api::notifications::{IncidentNotificationItemDto, NotificationRecord, NotificationsResponseDto};

fn record(id: &str, level: Option<&str>, handled: bool, occurrences: u32) -> NotificationRecord {
    NotificationRecord {
        notification_id: id.to_string(),
        message: format!("message {id}"),
        scope: "session".to_string(),
        level: level.map(str::to_string),
        title: Some("title".to_string()),
        source: None,
        workspace_id: Some("workspace-1".to_string()),
        session_id: Some("session-1".to_string()),
        handled,
        resolved: false,
        created_at: 7,
        action_required: true,
        count_unread: true,
        occurrence_count: occurrences,
    }
}

#[test]
fn incident_items_default_level_read_state_and_count() {
    let item = IncidentNotificationItemDto::from_record(record("n1", None, true, 0));
    assert_eq!(item.kind, "incident");
    assert_eq!(item.level, "error");
    assert!(item.read);
    assert!(item.handled);
    assert_eq!(item.occurrence_count, 1);
    assert_eq!(item.scope, "session");
    let warned = IncidentNotificationItemDto::from_record(record("n2", Some("warning"), false, 4));
    assert_eq!(warned.level, "warning");
    assert!(!warned.read);
    assert_eq!(warned.occurrence_count, 4);
}

#[test]
fn notifications_response_keeps_records_in_order() {
    let response = NotificationsResponseDto::from_records(
        "workspace-1".to_string(),
        Some("session-1"),
        vec![record("a", None, false, 1), record("b", Some("info"), true, 2)],
        1234,
    );
    assert_eq!(response.workspace_id, "workspace-1");
    assert_eq!(response.session_id.as_deref(), Some("session-1"));
    assert_eq!(response.notifications.last_updated_at, 1234);
    let ids: Vec<&str> = response.notifications.records.iter().map(|r| r.notification_id.as_str()).collect();
    assert_eq!(ids, vec!["a", "b"]);
    assert_eq!(response.notifications.records[1].level, "info");
}
