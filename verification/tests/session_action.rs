use magi_api::session_action::{
    SessionActionImageDto, SessionActionRequestDto, SessionActionResponseDto,
};
use magi_api::ids::{EventId, SessionId, TaskId, UtcMillis};

fn request() -> SessionActionRequestDto {
    SessionActionRequestDto {
        session_id: Some("  session-1  ".to_string()),
        workspace_id: Some("  workspace-1  ".to_string()),
        text: Some("  hello world  ".to_string()),
        deep_task: true,
        skill_name: Some("  refactor  ".to_string()),
        images: vec![SessionActionImageDto {
            name: "image.png".to_string(),
            data_url: "data:image/png;base64,abc".to_string(),
        }],
    }
}

#[test]
fn request_normalization_trims_textual_fields() {
    let request = request();

    assert_eq!(
        request
            .requested_session_id()
            .as_ref()
            .map(|id| id.as_str().to_string()),
        Some("session-1".to_string())
    );
    assert_eq!(
        request.requested_workspace_id().as_deref(),
        Some("workspace-1")
    );
    assert_eq!(request.trimmed_text().as_deref(), Some("hello world"));
}

#[test]
fn timeline_message_captures_skill_text_images_and_depth() {
    let request = request();
    let message = request.timeline_message(request.trimmed_text().as_deref());

    assert_eq!(message, "/refactor\nhello world\n[图片 1 张]\n[深度任务]");
}

#[test]
fn mission_title_uses_trimmed_text_with_fixed_limit() {
    let request = request();
    let title = request.mission_title(Some(
        "01234567890123456789012345678901234567890123456789012345678901234567890123456789",
    ));

    assert_eq!(title.len(), 80);
    assert_eq!(
        title,
        "01234567890123456789012345678901234567890123456789012345678901234567890123456789"
    );
}

#[test]
fn mission_title_falls_back_to_new_task_for_empty_text() {
    let request = request();

    assert_eq!(request.mission_title(None), "新任务");
}

#[test]
fn timeline_message_falls_back_for_empty_input() {
    let request = SessionActionRequestDto {
        session_id: None,
        workspace_id: None,
        text: Some("   ".to_string()),
        deep_task: false,
        skill_name: Some("   ".to_string()),
        images: Vec::new(),
    };

    assert_eq!(request.timeline_message(None), "[空输入]");
}

#[test]
fn mission_title_cuts_long_text_at_eighty_characters_and_trims() {
    let request = request();
    let long = format!("{}   tail", "题".repeat(78));
    let title = request.mission_title(Some(&long));
    assert_eq!(title, "题".repeat(78));
    assert_eq!(request.mission_title(Some("   ")), "新任务");
}

#[test]
fn timeline_message_counts_many_images() {
    let image = SessionActionImageDto {
        name: "a.png".to_string(),
        data_url: "data:".to_string(),
    };
    let request = SessionActionRequestDto {
        session_id: None,
        workspace_id: None,
        text: None,
        deep_task: false,
        skill_name: None,
        images: vec![image.clone(); 12],
    };
    assert_eq!(request.timeline_message(None), "[图片 12 张]");
    assert!(request.has_execution_trigger());
}

#[test]
fn execution_trigger_requires_depth_skill_or_images() {
    let mut request = SessionActionRequestDto {
        session_id: None,
        workspace_id: Some(" \t ".to_string()),
        text: Some("plain".to_string()),
        deep_task: false,
        skill_name: Some("  ".to_string()),
        images: Vec::new(),
    };
    assert!(!request.has_execution_trigger());
    assert_eq!(request.requested_workspace_id(), None);
    assert!(request.requested_session_id().is_none());
    request.skill_name = Some(" review ".to_string());
    assert!(request.has_execution_trigger());
}

#[test]
fn response_carries_ids_as_strings() {
    let dto = SessionActionResponseDto::new(
        SessionId::new("session-9".to_string()),
        "entry-1".to_string(),
        EventId::new("event-1".to_string()),
        UtcMillis { millis: 42 },
        true,
        Some(TaskId::new("task-root".to_string())),
        None,
    );
    assert_eq!(dto.session_id, "session-9");
    assert_eq!(dto.event_id, "event-1");
    assert_eq!(dto.accepted_at, UtcMillis { millis: 42 });
    assert!(dto.created_session);
    assert_eq!(dto.root_task_id.as_deref(), Some("task-root"));
    assert_eq!(dto.action_task_id, None);
}
