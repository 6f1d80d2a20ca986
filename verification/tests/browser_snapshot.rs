use magi_api::browser_snapshot::{
    browser_tool_snapshot_value, BrowserHostSnapshot, BrowserSnapshotNode,
};
use magi_api::json::{print_json, JsonValue};
use magi_api::snapshot_text::truncate_utf8;

fn snapshot_node(
    element_ref: &str,
    role: Option<&str>,
    name: Option<&str>,
    editable: bool,
    focused: bool,
) -> BrowserSnapshotNode {
    BrowserSnapshotNode {
        element_ref: element_ref.to_string(),
        role: role.map(str::to_string),
        name: name.map(str::to_string),
        value: None,
        description: None,
        disabled: false,
        focused,
        editable,
        sensitive_input_kind: None,
        children: Vec::new(),
    }
}

fn member<'a>(value: &'a JsonValue, key: &str) -> Option<&'a JsonValue> {
    match value {
        JsonValue::Object(entries) => entries.iter().find(|(k, _)| k == key).map(|(_, v)| v),
        _ => None,
    }
}

#[test]
fn model_snapshot_is_compact_and_prioritizes_interactive_elements() {
    let mut nodes = (1..=200)
        .map(|index| snapshot_node(&format!("e-2-{index}"), None, Some("静态内容"), false, false))
        .collect::<Vec<_>>();
    let searchbox = snapshot_node("e-2-2", Some("searchbox"), Some("Search"), true, true);
    nodes.push(searchbox);
    let snapshot = BrowserHostSnapshot {
        navigation_revision: 1,
        snapshot_revision: 2,
        root: BrowserSnapshotNode {
            element_ref: "root".to_string(),
            role: Some("document".to_string()),
            name: Some("示例页面".to_string()),
            value: None,
            description: None,
            disabled: false,
            focused: false,
            editable: false,
            sensitive_input_kind: None,
            children: nodes,
        },
        accessibility_tree: Vec::new(),
    };

    let value = browser_tool_snapshot_value(&snapshot, "browser-logical-tab");
    let elements = match member(&value, "elements") {
        Some(JsonValue::Array(items)) => items,
        _ => panic!("compact snapshot elements should be an array"),
    };

    assert_eq!(elements.len(), 96);
    assert!(matches!(member(&value, "tab_id"), Some(JsonValue::Str(s)) if s == "browser-logical-tab"));
    assert!(matches!(member(&elements[0], "role"), Some(JsonValue::Str(s)) if s == "searchbox"));
    assert!(matches!(member(&elements[0], "editable"), Some(JsonValue::Bool(true))));
    assert!(member(&elements[0], "bounds").is_none());
    assert!(member(&elements[0], "disabled").is_none());
    assert!(member(&value, "continuation_refs").is_none());
    assert!(member(&value, "truncated").is_none());
    assert!(member(&value, "returned_nodes").is_none());
    assert!(member(&value, "total_nodes").is_none());
}

#[test]
fn model_snapshot_text_budget_and_order() {
    let long = "x".repeat(300);
    let mut children = vec![
        snapshot_node("a", Some("link"), Some(&long), false, false),
        snapshot_node("b", Some("button"), Some("Go"), false, false),
        snapshot_node("c", None, Some(""), false, false),
    ];
    children[0].children.push(snapshot_node("a-1", Some("heading"), Some("Title"), false, false));
    let snapshot = BrowserHostSnapshot {
        navigation_revision: 7,
        snapshot_revision: 9,
        root: BrowserSnapshotNode {
            element_ref: "root".to_string(),
            role: None,
            name: None,
            value: None,
            description: None,
            disabled: false,
            focused: false,
            editable: false,
            sensitive_input_kind: None,
            children,
        },
        accessibility_tree: vec![JsonValue::Null],
    };
    let value = browser_tool_snapshot_value(&snapshot, "tab-1");
    let text = print_json(&value).expect("snapshot prints");
    let expected_link = format!("{}…", "x".repeat(157));
    assert_eq!(
        text,
        format!(
            r#"{{"accessibility_tree":[null],"elements":[{{"element_ref":"b","name":"Go","role":"button"}},{{"element_ref":"a","name":"{expected_link}","role":"link"}},{{"element_ref":"a-1","name":"Title","role":"heading"}},{{"element_ref":"c"}}],"navigation_revision":7,"snapshot_revision":9,"tab_id":"tab-1"}}"#
        )
    );
}

#[test]
fn truncation_keeps_whole_characters_within_the_byte_limit() {
    assert_eq!(truncate_utf8("hello", 5), "hello");
    assert_eq!(truncate_utf8("hello world", 8), "hello…");
    assert_eq!(truncate_utf8("hello", 3), "hel");
    assert_eq!(truncate_utf8("中文字", 2), "");
    assert_eq!(truncate_utf8("中文字", 3), "中");
    assert_eq!(truncate_utf8("中文字符", 8), "中…");
    for limit in 0..20 {
        assert!(truncate_utf8("héllo wörld ✓✓", limit).len() <= limit);
    }
}
