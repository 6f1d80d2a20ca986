use magi_api::browser::BrowserScreenshotFormat;
use magi_api::browser_requests::{
    browser_artifact_file_name, browser_interaction_request, browser_navigation_request, browser_tabs_request,
    browser_tool_tab_id,
    browser_viewport_request, device_type_for, screenshot_extension, screenshot_options, BrowserDeviceType,
    BrowserInteraction, BrowserNavigation, BrowserTabsRequest, BrowserViewport, ScreenshotOptions, ViewportRequest,
};
use magi_api::json::{parse_json, JsonValue};

fn object(text: &str) -> Vec<(String, JsonValue)> {
    match parse_json(text).expect("test JSON should parse") {
        JsonValue::Object(entries) => entries,
        other => panic!("not an object: {other:?}"),
    }
}

#[test]
fn viewport_requests_get_auto_and_fixed() {
    assert_eq!(browser_viewport_request(&object(r#"{"action":"get"}"#)).ok(), Some(ViewportRequest::Get));
    assert_eq!(
        browser_viewport_request(&object(r#"{"action":"set","mode":"auto"}"#)).ok(),
        Some(ViewportRequest::SetAuto)
    );
    assert_eq!(
        browser_viewport_request(&object(r#"{"action":"set","width":1280,"height":800}"#)).ok(),
        Some(ViewportRequest::SetFixed(BrowserViewport {
            width: 1280,
            height: 800,
            device_scale_factor_millis: 1000,
            device_type: BrowserDeviceType::Desktop,
        }))
    );
    assert_eq!(
        browser_viewport_request(&object(
            r#"{"action":"set","mode":"fixed","width":390,"height":844,"device_scale_factor_millis":3000,"device_type":"mobile"}"#
        )).ok(),
        Some(ViewportRequest::SetFixed(BrowserViewport {
            width: 390,
            height: 844,
            device_scale_factor_millis: 3000,
            device_type: BrowserDeviceType::Mobile,
        }))
    );
}

#[test]
fn viewport_requests_report_each_refusal() {
    let code = |text: &str| browser_viewport_request(&object(text)).unwrap_err().code;
    assert_eq!(code(r#"{}"#), "invalid_arguments");
    assert_eq!(code(r#"{"action":"zoom"}"#), "invalid_viewport_action");
    assert_eq!(code(r#"{"action":"set","mode":"stretch"}"#), "browser_viewport_mode_invalid");
    assert_eq!(code(r#"{"action":"set","height":800}"#), "invalid_arguments");
    assert_eq!(code(r#"{"action":"set","width":100,"height":800}"#), "browser_viewport_invalid");
    assert_eq!(
        code(r#"{"action":"set","width":800,"height":800,"device_scale_factor_millis":"x"}"#),
        "invalid_arguments"
    );
    assert_eq!(
        code(r#"{"action":"set","width":800,"height":800,"device_scale_factor_millis":100}"#),
        "browser_viewport_invalid"
    );
    assert_eq!(
        code(r#"{"action":"set","width":800,"height":800,"device_type":"tablet"}"#),
        "browser_device_type_invalid"
    );
    let mismatch = browser_viewport_request(&object(r#"{"action":"set","width":601,"height":800,"device_type":"mobile"}"#))
        .unwrap_err();
    assert_eq!(mismatch.code, "browser_device_type_mismatch");
    assert_eq!(mismatch.message, "device_type 与 width 不一致：320-600 必须为 mobile，601 以上必须为 desktop");
    assert_eq!(device_type_for(600), BrowserDeviceType::Mobile);
    assert_eq!(device_type_for(601), BrowserDeviceType::Desktop);
}

#[test]
fn navigation_requests_resolve_action_timeout_and_dialogs() {
    assert_eq!(
        browser_navigation_request(&object(r#"{"url":" https://example.com ","timeout_ms":0,"init_script":"1"}"#)).ok(),
        Some(BrowserNavigation::Url {
            url: "https://example.com".to_string(),
            handle_before_unload: None,
            init_script: Some("1".to_string()),
            timeout_ms: Some(1),
        })
    );
    assert_eq!(
        browser_navigation_request(&object(r#"{"action":"reload","ignore_cache":true,"handle_before_unload":"accept","timeout_ms":90000}"#)).ok(),
        Some(BrowserNavigation::Reload {
            ignore_cache: true,
            handle_before_unload: Some("accept".to_string()),
            timeout_ms: Some(60000),
        })
    );
    assert_eq!(
        browser_navigation_request(&object(r#"{"action":"back"}"#)).ok(),
        Some(BrowserNavigation::Back { timeout_ms: None })
    );
    assert_eq!(
        browser_navigation_request(&object(r#"{"action":"forward","timeout_ms":1500}"#)).ok(),
        Some(BrowserNavigation::Forward { timeout_ms: Some(1500) })
    );
    let message = |text: &str| browser_navigation_request(&object(text)).unwrap_err().message;
    assert_eq!(message(r#"{}"#), "必须提供 url，或显式指定 back、forward、reload action");
    assert_eq!(message(r#"{"action":"back","timeout_ms":4294967296}"#), "timeout_ms 超出支持范围");
    assert_eq!(message(r#"{"action":"back","handle_before_unload":"ignore"}"#), "handle_before_unload 必须是 accept 或 dismiss");
    assert_eq!(message(r#"{"url":"https://example.com","ignore_cache":true}"#), "ignore_cache 只支持 reload action");
    assert_eq!(message(r#"{"action":"url"}"#), "缺少参数 url");
    assert_eq!(message(r#"{"action":"jump"}"#), "action 不合法");
}

#[test]
fn screenshot_options_check_scope_format_and_quality() {
    assert_eq!(
        screenshot_options(&object(r#"{}"#), false).ok(),
        Some(ScreenshotOptions { full_page: false, format: BrowserScreenshotFormat::Png, quality: None })
    );
    assert_eq!(
        screenshot_options(&object(r#"{"format":"jpeg","quality":150,"full_page":true}"#), false).ok(),
        Some(ScreenshotOptions { full_page: true, format: BrowserScreenshotFormat::Jpeg, quality: Some(100) })
    );
    assert_eq!(
        screenshot_options(&object(r#"{"format":"webp","quality":40}"#), true).ok(),
        Some(ScreenshotOptions { full_page: false, format: BrowserScreenshotFormat::Webp, quality: Some(40) })
    );
    let code = |text: &str, clip: bool| screenshot_options(&object(text), clip).unwrap_err().code;
    assert_eq!(code(r#"{"full_page":true}"#, true), "invalid_screenshot_scope");
    assert_eq!(code(r#"{"element_ref":"e1","snapshot_revision":1,"full_page":true}"#, false), "invalid_screenshot_scope");
    assert_eq!(code(r#"{"format":"gif"}"#, false), "invalid_screenshot_format");
    assert_eq!(code(r#"{"format":"jpeg","quality":256}"#, false), "invalid_screenshot_quality");
    assert_eq!(code(r#"{"quality":80}"#, false), "invalid_screenshot_quality");
    assert_eq!(screenshot_extension(BrowserScreenshotFormat::Jpeg), "jpg");
    assert_eq!(screenshot_extension(BrowserScreenshotFormat::Png), "png");
}

#[test]
fn interaction_requests_read_targets_text_and_keys() {
    let target = r#""snapshot_revision":3,"element_ref":"e7""#;
    match browser_interaction_request("browser_click", &object(&format!("{{{target}}}"))).expect("click") {
        BrowserInteraction::Click { target } => {
            assert_eq!(target.snapshot_revision, 3);
            assert_eq!(target.element_ref, "e7");
        }
        other => panic!("unexpected {other:?}"),
    }
    match browser_interaction_request("browser_type", &object(&format!("{{{target},\"text\":\"hi\",\"replace\":false,\"submit_key\":\"Enter\"}}"))).expect("type") {
        BrowserInteraction::Type { text, replace, submit_key, .. } => {
            assert_eq!(text, "hi");
            assert!(!replace);
            assert_eq!(submit_key.as_deref(), Some("Enter"));
        }
        other => panic!("unexpected {other:?}"),
    }
    match browser_interaction_request("browser_type", &object(&format!("{{{target},\"text\":\"hi\"}}"))).expect("type") {
        BrowserInteraction::Type { replace, .. } => assert!(replace),
        other => panic!("unexpected {other:?}"),
    }
    assert_eq!(
        browser_interaction_request("browser_press", &object(r#"{"key":"Tab"}"#)).ok(),
        Some(BrowserInteraction::Press { key: "Tab".to_string() })
    );
    assert_eq!(browser_interaction_request("browser_press", &object(r#"{}"#)).unwrap_err().message, "缺少参数 key");
    assert_eq!(browser_interaction_request("browser_click", &object(r#"{}"#)).unwrap_err().message, "缺少 snapshot_revision");
    assert_eq!(
        browser_interaction_request("browser_type", &object(&format!("{{{target}}}"))).unwrap_err().message,
        "缺少参数 text"
    );
}

#[test]
fn tabs_requests_and_tab_ids() {
    assert_eq!(browser_tabs_request(&object(r#"{"action":"list"}"#)).ok(), Some(BrowserTabsRequest::List));
    assert_eq!(
        browser_tabs_request(&object(r#"{"action":"new"}"#)).ok(),
        Some(BrowserTabsRequest::New { initial_url: "about:blank".to_string() })
    );
    assert_eq!(
        browser_tabs_request(&object(r#"{"action":"new","url":"https://a.test"}"#)).ok(),
        Some(BrowserTabsRequest::New { initial_url: "https://a.test".to_string() })
    );
    assert_eq!(
        browser_tabs_request(&object(r#"{"action":"activate","tab_id":"t1"}"#)).ok(),
        Some(BrowserTabsRequest::Activate { tab_id: "t1".to_string() })
    );
    assert_eq!(
        browser_tabs_request(&object(r#"{"action":"close","tab_id":"t2"}"#)).ok(),
        Some(BrowserTabsRequest::Close { tab_id: "t2".to_string() })
    );
    assert_eq!(browser_tabs_request(&object(r#"{"action":"close"}"#)).unwrap_err().message, "缺少参数 tab_id");
    assert_eq!(browser_tabs_request(&object(r#"{"action":"move"}"#)).unwrap_err().code, "invalid_tabs_action");
    assert_eq!(browser_tool_tab_id(1700, 4), "browser-tool-tab-1700-4");
}

#[test]
fn screenshot_artifacts_are_named_by_time_and_sequence() {
    assert_eq!(
        browser_artifact_file_name(1_700_000_000_123, 7, screenshot_extension(BrowserScreenshotFormat::Jpeg)),
        "browser-shot-1700000000123-7.jpg"
    );
    assert_eq!(browser_artifact_file_name(0, 0, "png"), "browser-shot-0-0.png");
}
