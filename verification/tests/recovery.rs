use magi_api::recovery::RecoveryResumeRequestDto;

#[test]
fn recovery_resume_request_trims_recovery_and_worker_ids() {
    let request = RecoveryResumeRequestDto {
        recovery_id: "  recovery-1  ".to_string(),
        worker_id: Some("  worker-1  ".to_string()),
    };

    assert_eq!(
        request.requested_recovery_id().as_deref(),
        Some("recovery-1")
    );
    assert_eq!(
        request.requested_worker_id().as_ref().map(|id| id.as_str().to_string()),
        Some("worker-1".to_string())
    );
}

#[test]
fn recovery_resume_request_rejects_blank_recovery_id() {
    let request = RecoveryResumeRequestDto {
        recovery_id: "   ".to_string(),
        worker_id: Some("   ".to_string()),
    };

    assert!(request.requested_recovery_id().is_none());
    assert!(request.requested_worker_id().is_none());
}

#[test]
fn recovery_resume_request_trims_unicode_white_space() {
    let request = RecoveryResumeRequestDto {
        recovery_id: "\u{3000}recovery-2\u{00A0}\n".to_string(),
        worker_id: None,
    };
    assert_eq!(request.requested_recovery_id().as_deref(), Some("recovery-2"));
    assert!(request.requested_worker_id().is_none());
}
