use magi_api::api_error::ApiError;
use magi_api::change_projection::{
    check_requested_workspace, convert_pending, count_diff_lines, path_access_error,
    ready_projection, resolve_session_change_scope, session_pending_changes, PendingChangesRead, safe_relative_path, scope_contributors,
    session_execution_group, workspace_path_input, workspace_relative_path, ChangeKind,
    ContentKind, PendingChange, SessionChangeScope, SessionScopeFacts, SourceKind,
    WorkspacePathInput,
};

#[test]
fn safe_relative_path_rejects_parent_and_root() {
    assert!(safe_relative_path("../etc/passwd").is_err());
    assert!(safe_relative_path("/etc/passwd").is_err());
    assert!(safe_relative_path(r"C:\Windows\System32").is_err());
    assert!(safe_relative_path(r"\\server\share\file.txt").is_err());
    assert_eq!(safe_relative_path("foo/bar.txt").unwrap(), "foo/bar.txt");
}

#[test]
fn safe_relative_path_error_messages() {
    assert_eq!(
        safe_relative_path("a/../b").unwrap_err(),
        ApiError::InvalidInput("路径不允许包含 ..".to_string())
    );
    assert_eq!(
        safe_relative_path("/a").unwrap_err(),
        ApiError::InvalidInput("路径不允许为绝对路径".to_string())
    );
    assert!(safe_relative_path("a/..b/...").is_ok());
    assert!(safe_relative_path("./a").is_ok());
    assert_eq!(path_access_error(), ApiError::InvalidInput("路径不可读取或不存在".to_string()));
}

#[test]
fn diff_counts_skip_headers_and_hunks() {
    let diff = "--- a/x\n+++ b/x\n@@ -1,2 +1,2 @@\n-old\n+new\n+more\n context\n";
    assert_eq!(count_diff_lines(diff), (2, 1));
    assert_eq!(count_diff_lines(""), (0, 0));
    assert_eq!(count_diff_lines("+a\r\n-b"), (1, 1));
    assert_eq!(count_diff_lines("\n\n+"), (1, 0));
}

fn scope() -> SessionChangeScope {
    SessionChangeScope {
        session_id: "s-1".to_string(),
        workspace_id: "w-1".to_string(),
        workspace_root: "/repo".to_string(),
        execution_group_id: "session:s-1".to_string(),
        contributors: vec!["worker-a".to_string()],
    }
}

fn change(path: &str, kind: ChangeKind) -> PendingChange {
    PendingChange {
        path: path.to_string(),
        change_kind: kind,
        content_kind: ContentKind::Text,
        source: SourceKind::Tool,
        unified_diff: Some("+a\n+b\n-c\n".to_string()),
        timestamp_ms: 42,
        size: 10,
        mime: None,
        old_path: None,
        error: Some("   ".to_string()),
        revertible: true,
        symlink_target: None,
        head_summary: None,
        tail_summary: None,
        tool_call_id: None,
        worker_id: None,
        execution_group_id: None,
    }
}

#[test]
fn pending_change_summary_omits_heavy_payload() {
    let dto = convert_pending(&scope(), change("src/a.rs", ChangeKind::Modified), "/repo/src/a.rs".to_string(), true);
    assert!(dto.diff.is_empty());
    assert!(dto.original_content.is_none());
    assert!(dto.preview_content.is_none());
    assert_eq!(dto.additions, 2);
    assert_eq!(dto.deletions, 1);
    assert_eq!(dto.change_type, "modify");
    assert_eq!(dto.snapshot_id, "session:s-1:src/a.rs");
    assert!(dto.preview_can_open_workspace_file);
    assert!(!dto.has_error);
    let deleted = convert_pending(&scope(), change("gone.rs", ChangeKind::Deleted), "/repo/gone.rs".to_string(), true);
    assert!(!deleted.preview_can_open_workspace_file);
}

#[test]
fn pending_change_projection_redacts_snapshot_error_detail() {
    let mut failing = change("b.txt", ChangeKind::Added);
    failing.error = Some("disk failure at /private/tmp/x".to_string());
    failing.execution_group_id = Some("mission-1".to_string());
    let dto = convert_pending(&scope(), failing, "/repo/b.txt".to_string(), false);
    assert!(dto.has_error);
    assert_eq!(dto.execution_group_id, "mission-1");
    assert_eq!(dto.snapshot_id, "mission-1:b.txt");
    assert!(!dto.preview_can_open_workspace_file);
}

#[test]
fn ready_projection_sorts_by_path() {
    let s = scope();
    let items = vec![
        convert_pending(&s, change("z.rs", ChangeKind::Added), "/repo/z.rs".to_string(), true),
        convert_pending(&s, change("a.rs", ChangeKind::Added), "/repo/a.rs".to_string(), true),
        convert_pending(&s, change("m/b.rs", ChangeKind::Added), "/repo/m/b.rs".to_string(), true),
    ];
    let projection = ready_projection(&s, items);
    let paths: Vec<&str> = projection.pending_changes.iter().map(|d| d.file_path.as_str()).collect();
    assert_eq!(paths, vec!["a.rs", "m/b.rs", "z.rs"]);
    assert_eq!(projection.state.status, "ready");
    assert_eq!(projection.state.pending_count, 3);
    assert_eq!(projection.state.workspace_path.as_deref(), Some("/repo"));
}

#[test]
fn change_scope_resolution() {
    assert!(check_requested_workspace("s-1", Some(" w-1 "), Some("w-1")).is_ok());
    assert_eq!(
        check_requested_workspace("s-1", Some("w-2"), Some("w-1")).unwrap_err(),
        ApiError::InvalidInput("会话 s-1 不属于 workspace w-2".to_string())
    );
    assert_eq!(session_execution_group(Some("  "), None, "s-1"), "session:s-1");
    assert_eq!(session_execution_group(None, Some("mission-9"), "s-1"), "mission-9");
    assert_eq!(session_execution_group(Some(" g "), Some("mission-9"), "s-1"), "g");
    assert_eq!(
        scope_contributors(
            vec!["w-b".to_string(), " ".to_string(), "w-a".to_string()],
            vec!["w-b".to_string(), "w-c".to_string()],
        ),
        vec!["w-a".to_string(), "w-b".to_string(), "w-c".to_string()]
    );
    let facts = SessionScopeFacts {
        session_id: "s-1".to_string(),
        ownership_workspace_id: None,
        session_workspace_id: Some("w-1".to_string()),
        mission_id: Some("m-1".to_string()),
        branch_workers: vec!["w-2".to_string()],
        worker_bindings: vec!["w-1".to_string()],
    };
    let workspaces = vec![("w-1".to_string(), "/repo".to_string())];
    let resolved = resolve_session_change_scope(facts.clone(), &workspaces, None, None).unwrap();
    assert_eq!(resolved.workspace_root, "/repo");
    assert_eq!(resolved.execution_group_id, "m-1");
    assert_eq!(resolved.contributors, vec!["w-1".to_string(), "w-2".to_string()]);
    let unbound = SessionScopeFacts { session_workspace_id: None, ..facts.clone() };
    assert_eq!(
        resolve_session_change_scope(unbound, &workspaces, None, None).unwrap_err(),
        ApiError::InvalidInput("当前会话未绑定 workspace，不能执行变更操作".to_string())
    );
    assert!(matches!(
        resolve_session_change_scope(facts, &Vec::new(), None, None).unwrap_err(),
        ApiError::NotFound { .. }
    ));
}

#[test]
fn workspace_paths_are_read_and_related_to_the_root() {
    assert_eq!(
        workspace_path_input("   ").unwrap_err(),
        ApiError::InvalidInput("文件路径不能为空".to_string())
    );
    assert_eq!(workspace_path_input(" mhp1:abc ").unwrap(), WorkspacePathInput::PathRef("mhp1:abc".to_string()));
    assert_eq!(workspace_path_input("/etc/x").unwrap(), WorkspacePathInput::Absolute("/etc/x".to_string()));
    assert_eq!(workspace_path_input("src/x").unwrap(), WorkspacePathInput::Relative("src/x".to_string()));
    assert!(workspace_path_input("../x").is_err());
    assert_eq!(workspace_relative_path("/repo", "/repo/src/a.rs").unwrap(), "src/a.rs");
    assert_eq!(workspace_relative_path("/repo", "/repo").unwrap(), "");
    assert_eq!(workspace_relative_path("/", "/etc").unwrap(), "etc");
    assert_eq!(
        workspace_relative_path("/repo", "/repository/a").unwrap_err(),
        ApiError::InvalidInput("路径越出工作区边界".to_string())
    );
}

#[test]
fn ready_projection_keeps_the_order_of_equal_paths() {
    let s = scope();
    let mut first = change("same.rs", ChangeKind::Added);
    first.timestamp_ms = 1;
    let mut second = change("same.rs", ChangeKind::Modified);
    second.timestamp_ms = 2;
    let items = vec![
        convert_pending(&s, change("z.rs", ChangeKind::Added), "/repo/z.rs".to_string(), true),
        convert_pending(&s, first, "/repo/same.rs".to_string(), true),
        convert_pending(&s, change("a.rs", ChangeKind::Added), "/repo/a.rs".to_string(), true),
        convert_pending(&s, second, "/repo/same.rs".to_string(), true),
    ];
    let projection = ready_projection(&s, items);
    let order: Vec<(&str, u64)> = projection
        .pending_changes
        .iter()
        .map(|d| (d.file_path.as_str(), d.updated_at))
        .collect();
    assert_eq!(order, vec![("a.rs", 42), ("same.rs", 1), ("same.rs", 2), ("z.rs", 42)]);
}

#[test]
fn pending_changes_phases_follow_what_the_stores_know() {
    let none = session_pending_changes("s-1", None, None, PendingChangesRead::NoSnapshot);
    assert_eq!(none.state.status, "unavailable");
    assert_eq!(none.state.reason_code.as_deref(), Some("workspace_unavailable"));
    assert_eq!(none.state.workspace_id, None);
    let no_root = session_pending_changes("s-1", Some("w-1"), None, PendingChangesRead::Failed);
    assert_eq!(no_root.state.status, "unavailable");
    assert_eq!(no_root.state.workspace_id.as_deref(), Some("w-1"));
    assert_eq!(no_root.state.workspace_path, None);
    let preparing = session_pending_changes("s-1", Some("w-1"), Some("/repo"), PendingChangesRead::NoSnapshot);
    assert_eq!(preparing.state.status, "not_ready");
    assert_eq!(preparing.state.reason_code.as_deref(), Some("changes_preparing"));
    let failed = session_pending_changes("s-1", Some("w-1"), Some("/repo"), PendingChangesRead::Failed);
    assert_eq!(failed.state.status, "error");
    assert_eq!(failed.state.reason_code.as_deref(), Some("changes_unavailable"));
    assert!(failed.pending_changes.is_empty());
    let s = scope();
    let items = vec![
        convert_pending(&s, change("b.rs", ChangeKind::Added), "/repo/b.rs".to_string(), true),
        convert_pending(&s, change("a.rs", ChangeKind::Added), "/repo/a.rs".to_string(), true),
    ];
    let ready = session_pending_changes("s-1", Some("w-1"), Some("/repo"), PendingChangesRead::Read(items));
    assert_eq!(ready.state.status, "ready");
    assert_eq!(ready.state.reason_code, None);
    assert_eq!(ready.state.pending_count, 2);
    assert_eq!(ready.pending_changes[0].file_path, "a.rs");
}
