use sha2::{Digest, Sha256};
use magi_api::browser::{
    browser_devtools_operation, browser_execution_id, capability_unavailable, failure,
    lower_hex_string, screenshot_binary_matches, validate_device_scale_factor,
    validate_screenshot_binary, validate_screenshot_scope, validate_viewport_dimensions,
    BrowserHostBinaryPayload, BrowserHostCommandError, BrowserHostCommandOutcome,
    BrowserScreenshotFormat, BrowserToolError, ExecutionResultStatus, succeeded_result,
    browser_host_client_error, BrowserHostClientErrorKind,
};
use magi_api::browser_args::{
    browser_tool_call_arguments, browser_tool_execution_gate, browser_tool_kind_named, browser_tool_requested_access, optional_snapshot_target, snapshot_target, u32_arg,
    validate_devtools_arguments, BrowserToolAccess, BrowserToolKind, string_arg, bool_arg,
};
use magi_api::json::{parse_json, JsonValue};

fn object(text: &str) -> Vec<(String, JsonValue)> {
    match parse_json(text).expect("test JSON should parse") {
        JsonValue::Object(entries) => entries,
        other => panic!("not an object: {other:?}"),
    }
}

fn member<'a>(value: &'a JsonValue, key: &str) -> Option<&'a JsonValue> {
    match value {
        JsonValue::Object(entries) => entries.iter().find(|(k, _)| k == key).map(|(_, v)| v),
        _ => None,
    }
}

fn as_str(value: Option<&JsonValue>) -> Option<&str> {
    match value {
        Some(JsonValue::Str(s)) => Some(s.as_str()),
        _ => None,
    }
}

#[test]
fn browser_screenshot_scope_is_explicitly_mutually_exclusive() {
    assert!(validate_screenshot_scope(true, false, false).is_ok());
    assert!(validate_screenshot_scope(false, true, false).is_ok());
    assert!(validate_screenshot_scope(false, false, true).is_ok());
    for (element, clip, full_page) in [(true, true, false), (true, false, true), (false, true, true)] {
        let error = validate_screenshot_scope(element, clip, full_page)
            .expect_err("screenshot scopes must not be combined");
        assert_eq!(error.code, "invalid_screenshot_scope");
    }
}

#[test]
fn screenshot_scope_without_any_scope_is_the_page() {
    assert!(validate_screenshot_scope(false, false, false).is_ok());
    assert!(validate_screenshot_scope(true, true, true).is_err());
}

#[test]
fn browser_devtools_contract_uses_source_target_fields_and_expression() {
    let arguments = object(
        r#"{"source":{"snapshot_revision":2,"element_ref":"e-1"},"target":{"snapshot_revision":2,"element_ref":"e-2"}}"#,
    );
    validate_devtools_arguments("drag", &arguments)
        .expect("drag should use source and target snapshot references");
    assert!(validate_devtools_arguments("drag", &Vec::new()).is_err());

    let fill_arguments =
        object(r#"{"fields":[{"snapshot_revision":2,"element_ref":"e-1","value":"Magi"}]}"#);
    validate_devtools_arguments("fill_form", &fill_arguments).expect("fill_form should use fields");

    let invalid_fill = object(
        r#"{"fields":[{"snapshot_revision":2,"element_ref":"e-1","value":{"unexpected":true}}]}"#,
    );
    assert!(validate_devtools_arguments("fill_form", &invalid_fill).is_err());

    let invalid_pwa = object(r#"{"action":"install"}"#);
    assert!(validate_devtools_arguments("pwa", &invalid_pwa).is_err());

    let invalid_heap = object(r#"{"action":"query_objects"}"#);
    assert!(validate_devtools_arguments("heap", &invalid_heap).is_err());

    let invalid_third_party = object(r#"{"action":"execute"}"#);
    assert!(validate_devtools_arguments("third_party", &invalid_third_party).is_err());

    assert!(validate_devtools_arguments("third_party", &Vec::new()).is_err());

    let third_party_list = object(r#"{"action":"list"}"#);
    validate_devtools_arguments("third_party", &third_party_list)
        .expect("third_party list should be supported");
    assert_eq!(
        browser_tool_requested_access(BrowserToolKind::ThirdParty, BrowserToolAccess::Write, &third_party_list),
        BrowserToolAccess::Read
    );
    let third_party_clear = object(r#"{"action":"clear"}"#);
    validate_devtools_arguments("third_party", &third_party_clear)
        .expect("third_party clear should be supported");
    assert_eq!(
        browser_tool_requested_access(BrowserToolKind::ThirdParty, BrowserToolAccess::Write, &third_party_clear),
        BrowserToolAccess::Write
    );
    let pwa_state = object(r#"{"action":"state"}"#);
    assert_eq!(
        browser_tool_requested_access(BrowserToolKind::Pwa, BrowserToolAccess::Write, &pwa_state),
        BrowserToolAccess::Read
    );

    let evaluate_arguments = object(r#"{"expression":"document.title"}"#);
    validate_devtools_arguments("evaluate", &evaluate_arguments).expect("evaluate should use expression");
    assert!(validate_devtools_arguments("evaluate", &Vec::new()).is_err());
}

#[test]
fn devtools_errors_name_the_faulty_argument() {
    let error = validate_devtools_arguments("drag", &Vec::new()).unwrap_err();
    assert_eq!(error.code, "invalid_arguments");
    assert_eq!(error.message, "browser_drag 必须提供 source 快照引用");

    let zero_revision = object(r#"{"source":{"snapshot_revision":0,"element_ref":"e-1"}}"#);
    let error = validate_devtools_arguments("drag", &zero_revision).unwrap_err();
    assert_eq!(error.message, "browser_drag.source.snapshot_revision 必须是正整数");

    let root_ref = object(r#"{"source":{"snapshot_revision":3,"element_ref":" root "}}"#);
    let error = validate_devtools_arguments("drag", &root_ref).unwrap_err();
    assert_eq!(error.message, "browser_drag.source.element_ref 必须是有效的快照元素引用");

    let float_revision = object(r#"{"source":{"snapshot_revision":2.5,"element_ref":"e-1"}}"#);
    let error = validate_devtools_arguments("drag", &float_revision).unwrap_err();
    assert_eq!(error.message, "browser_drag.source.snapshot_revision 必须是正整数");

    let heap = object(r#"{"action":"query_objects"}"#);
    assert_eq!(
        validate_devtools_arguments("heap", &heap).unwrap_err().message,
        "browser_heap 不支持 action: query_objects"
    );
    assert_eq!(
        validate_devtools_arguments("performance", &Vec::new()).unwrap_err().message,
        "browser_performance 必须提供 action"
    );

    let empty_fields = object(r#"{"fields":[]}"#);
    assert_eq!(
        validate_devtools_arguments("fill_form", &empty_fields).unwrap_err().message,
        "browser_fill_form 必须提供非空 fields 数组"
    );
    let missing_value = object(r#"{"fields":[{"snapshot_revision":2,"element_ref":"e-1"}]}"#);
    assert_eq!(
        validate_devtools_arguments("fill_form", &missing_value).unwrap_err().message,
        "browser_fill_form.fields 的每一项必须包含 value"
    );
    let not_object = object(r#"{"fields":[3]}"#);
    assert_eq!(
        validate_devtools_arguments("fill_form", &not_object).unwrap_err().message,
        "browser_fill_form.fields 的每一项必须是对象"
    );
    let array_value = object(r#"{"fields":[{"snapshot_revision":2,"element_ref":"e-1","value":["a",1]}]}"#);
    assert!(validate_devtools_arguments("fill_form", &array_value).is_ok());

    let upload_without_paths = object(r#"{"snapshot_revision":1,"element_ref":"e-9"}"#);
    assert_eq!(
        validate_devtools_arguments("upload_file", &upload_without_paths).unwrap_err().message,
        "browser_upload_file 必须提供 file_path 或非空 file_paths"
    );
    let upload_with_paths = object(r#"{"snapshot_revision":1,"element_ref":"e-9","file_paths":["/a","/b"]}"#);
    assert!(validate_devtools_arguments("upload_file", &upload_with_paths).is_ok());

    let long_expression = format!(r#"{{"expression":"{}"}}"#, "x".repeat(100_001));
    assert_eq!(
        validate_devtools_arguments("evaluate", &object(&long_expression)).unwrap_err().message,
        "browser_evaluate.expression 不能超过 100000 个字符"
    );
    let exactly_limit = format!(r#"{{"expression":"{}"}}"#, "x".repeat(100_000));
    assert!(validate_devtools_arguments("evaluate", &object(&exactly_limit)).is_ok());

    assert!(validate_devtools_arguments("hover", &Vec::new()).is_ok());
}

#[test]
fn devtools_operation_names_the_tools_operation() {
    assert_eq!(browser_devtools_operation("browser_wait_for"), Some("wait_for"));
    assert_eq!(browser_devtools_operation("browser_third_party"), Some("third_party"));
    assert_eq!(browser_devtools_operation("browser_pwa"), Some("pwa"));
    assert_eq!(browser_devtools_operation("browser_navigate"), None);
}

#[test]
fn viewport_and_scale_bounds_are_inclusive() {
    assert!(validate_viewport_dimensions(320, 240).is_ok());
    assert!(validate_viewport_dimensions(7680, 4320).is_ok());
    let error = validate_viewport_dimensions(319, 600).unwrap_err();
    assert_eq!(error.code, "browser_viewport_invalid");
    assert!(validate_viewport_dimensions(800, 4321).is_err());
    assert!(validate_device_scale_factor(500).is_ok());
    assert!(validate_device_scale_factor(4000).is_ok());
    assert_eq!(validate_device_scale_factor(499).unwrap_err().code, "browser_viewport_invalid");
    assert!(validate_device_scale_factor(4001).is_err());
}

#[test]
fn browser_screenshot_metadata_and_file_header_must_match() {
    let bytes = vec![0x89, 0x50, 0x4e, 0x47, 0x0d, 0x0a, 0x1a, 0x0a];
    let metadata = BrowserHostBinaryPayload {
        payload_id: "payload-1".to_string(),
        mime_type: "image/png".to_string(),
        byte_length: bytes.len() as u64,
        sha256: format!("{:x}", Sha256::digest(&bytes)),
    };
    validate_screenshot_binary(BrowserScreenshotFormat::Png, &metadata, &bytes)
        .expect("valid PNG metadata should pass");

    let mut invalid = metadata;
    invalid.mime_type = "image/webp".to_string();
    let error = validate_screenshot_binary(BrowserScreenshotFormat::Png, &invalid, &bytes)
        .expect_err("MIME mismatch must fail");
    assert_eq!(error.code, "browser_screenshot_format_mismatch");
}

#[test]
fn screenshot_digest_is_the_lowercase_sha256_of_the_bytes() {
    let bytes = b"abc".to_vec();
    let digest_hex = "ba7816bf8f01cfea414140de5dae2223b00361a396177a9cb410ff61f20015ad";
    let metadata = BrowserHostBinaryPayload {
        payload_id: "p".to_string(),
        mime_type: "image/jpeg".to_string(),
        byte_length: 3,
        sha256: digest_hex.to_string(),
    };
    // The header is wrong for JPEG, so the check fails on the header alone.
    assert!(screenshot_binary_matches(BrowserScreenshotFormat::Jpeg, &metadata, &bytes, digest_hex).is_err());
    let jpeg = vec![0xff, 0xd8, 0xff];
    let jpeg_meta = BrowserHostBinaryPayload { byte_length: 3, ..metadata.clone() };
    assert!(screenshot_binary_matches(BrowserScreenshotFormat::Jpeg, &jpeg_meta, &jpeg, digest_hex).is_ok());
    // The digest computed by the library differs from the one announced.
    assert!(validate_screenshot_binary(BrowserScreenshotFormat::Jpeg, &jpeg_meta, &jpeg).is_err());
    assert_eq!(lower_hex_string(&[0x00, 0x0f, 0xa0, 0xff]), "000fa0ff");

    let webp = b"RIFF\x00\x00\x00\x00WEBPVP8 ".to_vec();
    let webp_meta = BrowserHostBinaryPayload {
        payload_id: "w".to_string(),
        mime_type: "image/webp".to_string(),
        byte_length: webp.len() as u64,
        sha256: "x".to_string(),
    };
    assert!(screenshot_binary_matches(BrowserScreenshotFormat::Webp, &webp_meta, &webp, "x").is_ok());
    assert!(screenshot_binary_matches(BrowserScreenshotFormat::Webp, &webp_meta, &webp[..11], "x").is_err());
}

#[test]
fn browser_screenshot_root_is_page_scope_and_normalized_clip_is_validated() {
    let root = object(r#"{ "element_ref": "root", "snapshot_revision": 4 }"#);
    assert_eq!(optional_snapshot_target(&root).expect("root target should parse"), None);

    let element = object(r#"{ "element_ref": "e:4:1", "snapshot_revision": 4 }"#);
    assert_eq!(
        optional_snapshot_target(&element)
            .expect("element target should parse")
            .expect("non-root target should remain addressable")
            .element_ref,
        "e:4:1"
    );
}

#[test]
fn snapshot_target_arguments() {
    let missing_revision = object(r#"{ "element_ref": "e-1" }"#);
    assert_eq!(snapshot_target(&missing_revision).unwrap_err().message, "缺少 snapshot_revision");
    let missing_ref = object(r#"{ "snapshot_revision": 1 }"#);
    assert_eq!(snapshot_target(&missing_ref).unwrap_err().message, "缺少参数 element_ref");
    assert_eq!(optional_snapshot_target(&missing_ref).unwrap(), None);
    let args = object(r#"{ "width": 1280, "height": 5000000000, "name": "  x  ", "flag": true }"#);
    assert_eq!(u32_arg(&args, "width").unwrap(), 1280);
    assert_eq!(u32_arg(&args, "height").unwrap_err().message, "参数 height 必须是正整数");
    assert_eq!(string_arg(&args, "name").unwrap(), "x");
    assert!(bool_arg(&args, "flag", false));
    assert!(!bool_arg(&args, "missing", false));
}

#[test]
fn browser_execution_id_is_stable_and_does_not_depend_on_tool_call_id() {
    assert_eq!(
        browser_execution_id(Some("turn-stable"), None, None, "session-browser-execution-id"),
        "turn-stable"
    );
    assert_eq!(
        browser_execution_id(None, Some("task-stable"), None, "session-browser-execution-id"),
        "task:task-stable"
    );
    assert_eq!(
        browser_execution_id(None, None, None, "session-browser-execution-id"),
        "session:session-browser-execution-id"
    );
    assert_eq!(browser_execution_id(Some("  "), None, Some("turn-7"), "s"), "turn-7");
}

#[test]
fn capability_unavailable_payload_names_the_fallback() {
    let (payload, status) = capability_unavailable("browser_lighthouse", "no desktop");
    assert_eq!(status, ExecutionResultStatus::Failed);
    let value = parse_json(&payload).expect("payload JSON");
    assert_eq!(as_str(member(&value, "error_code")), Some("capability_unavailable"));
    let details = member(&value, "details").expect("details");
    assert_eq!(as_str(member(details, "capability")), Some("desktop_browser_surface"));
    assert_eq!(as_str(member(details, "supported_platform")), Some("desktop"));
    assert_eq!(
        payload,
        r#"{"details":{"available_fallback":"browser_records","capability":"desktop_browser_surface","supported_platform":"desktop"},"error":"no desktop","error_code":"capability_unavailable","recoverable":true,"requires_user_action":false,"status":"failed","tool":"browser_lighthouse"}"#
    );
    let (plain, _) = failure("browser_click", "x_code", "bad");
    assert_eq!(
        plain,
        r#"{"error":"bad","error_code":"x_code","recoverable":false,"requires_user_action":false,"status":"failed","tool":"browser_click"}"#
    );
}

#[test]
fn host_errors_that_need_the_user_ask_for_approval() {
    let error = BrowserHostCommandError {
        code: "browser_sensitive_action_requires_user".to_string(),
        message: "login".to_string(),
        recoverable: false,
        side_effect_started: false,
        diagnostic: None,
    };
    let tool_error = BrowserToolError::from_host("browser_click", &error);
    assert_eq!(tool_error.message, "browser_click: login");
    assert!(tool_error.recoverable);
    assert!(tool_error.requires_user_action);
    assert_eq!(tool_error.status, ExecutionResultStatus::NeedsApproval);

    let outcome: BrowserHostCommandOutcome<u8> = BrowserHostCommandOutcome::Cancelled;
    let cancelled = succeeded_result(outcome, "ctx").unwrap_err();
    assert_eq!(cancelled.code, "browser_command_cancelled");
    assert_eq!(cancelled.message, "ctx");
    assert_eq!(succeeded_result(BrowserHostCommandOutcome::Succeeded(7u8), "ctx").unwrap(), 7);

    let timeout = browser_host_client_error(BrowserHostClientErrorKind::RequestTimeout, "t".to_string());
    assert_eq!(timeout.code, "browser_host_request_timeout");
    assert_eq!(
        browser_host_client_error(BrowserHostClientErrorKind::Json, "j".to_string()).code,
        "browser_host_protocol_error"
    );
    assert_eq!(
        browser_host_client_error(BrowserHostClientErrorKind::Connect, "c".to_string()).code,
        "browser_host_unavailable"
    );
}

fn error_code(result: &(String, ExecutionResultStatus)) -> String {
    let value = parse_json(&result.0).expect("payload JSON");
    as_str(member(&value, "error_code")).expect("error code").to_string()
}

#[test]
fn browser_tools_are_found_by_name() {
    assert_eq!(browser_tool_kind_named("browser_tabs"), Some(BrowserToolKind::Tabs));
    assert_eq!(browser_tool_kind_named("browser_pwa"), Some(BrowserToolKind::Pwa));
    assert_eq!(browser_tool_kind_named("browser_click"), Some(BrowserToolKind::Other));
    assert_eq!(browser_tool_kind_named("browser_teleport"), None);
    assert_eq!(browser_tool_kind_named(" browser_tabs"), None);
}

#[test]
fn browser_tool_call_fails_first_on_what_comes_first() {
    let missing_session = browser_tool_call_arguments("nope", "not json", false, None).unwrap_err();
    assert_eq!(error_code(&missing_session), "browser_session_scope_missing");
    let not_object = browser_tool_call_arguments("nope", "[1]", true, None).unwrap_err();
    assert_eq!(error_code(&not_object), "invalid_arguments");
    assert_eq!(
        not_object.0,
        r#"{"error":"浏览器工具参数必须是 JSON 对象","error_code":"invalid_arguments","recoverable":false,"requires_user_action":false,"status":"failed","tool":"nope"}"#
    );
    assert_eq!(error_code(&browser_tool_call_arguments("nope", "{}", true, None).unwrap_err()), "unknown_browser_tool");
    assert_eq!(
        error_code(&browser_tool_call_arguments("browser_tabs", "{}", true, None).unwrap_err()),
        "browser_capability_snapshot_missing"
    );
    let (kind, revision, members) =
        browser_tool_call_arguments("browser_tabs", r#"{"action":"list"}"#, true, Some(3)).expect("arguments");
    assert_eq!(kind, BrowserToolKind::Tabs);
    assert_eq!(revision, 3);
    assert_eq!(members.len(), 1);
    assert_eq!(members[0].0, "action");
}

#[test]
fn browser_tool_call_stops_on_capability_then_host() {
    let refused = browser_tool_execution_gate("browser_click", Some("not allowed"), false).expect("refused");
    assert_eq!(error_code(&refused), "capability_unavailable");
    assert!(refused.0.contains("not allowed"));
    let no_host = browser_tool_execution_gate("browser_click", None, false).expect("no host");
    assert!(no_host.0.contains("浏览器 Host 尚未就绪"));
    assert!(browser_tool_execution_gate("browser_click", None, true).is_none());
}
