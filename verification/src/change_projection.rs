//! The pending-changes projection: safe workspace paths, the counts of a
//! unified diff, and the DTOs of a session's pending changes.

use vstd::prelude::*;
use crate::api_error::ApiError;
use crate::scan::{find_from, find_from_exec, lemma_find_from_bounds};
use crate::text::{chars_of, opt_str_view, opt_string_view, str_to_string, trim};

verus! {

/// What happened to a file.
#[derive(Clone, Copy, Debug, PartialEq, Eq, Structural)]
pub enum ChangeKind {
    Added,
    Modified,
    Deleted,
    Renamed,
}

/// What a changed file holds.
#[derive(Clone, Copy, Debug, PartialEq, Eq, Structural)]
pub enum ContentKind {
    Text,
    LargeText,
    Binary,
    Symlink,
    Special,
}

/// Who made a change.
#[derive(Clone, Copy, Debug, PartialEq, Eq, Structural)]
pub enum SourceKind {
    Tool,
    Watcher,
    External,
    Baseline,
}

pub open spec fn change_kind_name(k: ChangeKind) -> Seq<char> {
    match k {
        ChangeKind::Added => "add"@,
        ChangeKind::Modified => "modify"@,
        ChangeKind::Deleted => "delete"@,
        ChangeKind::Renamed => "rename"@,
    }
}

pub open spec fn content_kind_name(k: ContentKind) -> Seq<char> {
    match k {
        ContentKind::Text => "text"@,
        ContentKind::LargeText => "large_text"@,
        ContentKind::Binary => "binary"@,
        ContentKind::Symlink => "symlink"@,
        ContentKind::Special => "special"@,
    }
}

pub open spec fn source_kind_name(k: SourceKind) -> Seq<char> {
    match k {
        SourceKind::Tool => "tool"@,
        SourceKind::Watcher => "watcher"@,
        SourceKind::External => "external"@,
        SourceKind::Baseline => "baseline"@,
    }
}

/// The DTO name of a change kind.
pub fn change_kind_to_string(k: ChangeKind) -> (r: String)
    ensures
        r@ == change_kind_name(k),
{
    str_to_string(match k {
        ChangeKind::Added => "add",
        ChangeKind::Modified => "modify",
        ChangeKind::Deleted => "delete",
        ChangeKind::Renamed => "rename",
    })
}

/// The DTO name of a content kind.
pub fn content_kind_to_string(k: ContentKind) -> (r: String)
    ensures
        r@ == content_kind_name(k),
{
    str_to_string(match k {
        ContentKind::Text => "text",
        ContentKind::LargeText => "large_text",
        ContentKind::Binary => "binary",
        ContentKind::Symlink => "symlink",
        ContentKind::Special => "special",
    })
}

/// The DTO name of a source kind.
pub fn source_kind_to_string(k: SourceKind) -> (r: String)
    ensures
        r@ == source_kind_name(k),
{
    str_to_string(match k {
        SourceKind::Tool => "tool",
        SourceKind::Watcher => "watcher",
        SourceKind::External => "external",
        SourceKind::Baseline => "baseline",
    })
}

/// `s` starts with `p`.
pub open spec fn starts_with(s: Seq<char>, p: Seq<char>) -> bool {
    p.len() <= s.len() && s.take(p.len() as int) == p
}

/// How a line of a unified diff counts: 1 for an added line, 2 for a
/// removed one, 0 for a header, a hunk marker or a context line.
pub open spec fn diff_line_kind(line: Seq<char>) -> nat {
    if starts_with(line, "+++"@) || starts_with(line, "---"@) || starts_with(line, "@@"@) {
        0
    } else if line.len() > 0 && line[0] == '+' {
        1
    } else if line.len() > 0 && line[0] == '-' {
        2
    } else {
        0
    }
}

/// The end of the line that starts at `i`: the next newline, or the end.
pub open spec fn line_end(s: Seq<char>, i: nat) -> nat {
    match find_from(s, seq!['\n'], i) {
        Some(k) => k,
        None => s.len(),
    }
}

/// The added and removed lines of a diff, from the line that starts at `i`
/// on (lines end at a newline; a carriage return before it does not change
/// how a line counts).
pub open spec fn diff_counts_from(s: Seq<char>, i: nat) -> (nat, nat)
    decreases s.len() - i,
{
    if i >= s.len() {
        (0, 0)
    } else {
        let end = line_end(s, i);
        let kind = diff_line_kind(s.subrange(i as int, end as int));
        let rest = if end < s.len() && end + 1 > i { diff_counts_from(s, end + 1) } else { (0, 0) };
        (rest.0 + if kind == 1 { 1nat } else { 0nat }, rest.1 + if kind == 2 { 1nat } else { 0nat })
    }
}

/// The numbers of added and removed lines of a unified diff.
pub open spec fn diff_counts(diff: Seq<char>) -> (nat, nat) {
    diff_counts_from(diff, 0)
}

fn starts_with_at(s: &[char], start: usize, end: usize, p: &[char]) -> (r: bool)
    requires
        start <= end <= s@.len(),
    ensures
        r == starts_with(s@.subrange(start as int, end as int), p@),
{
    if p.len() > end - start {
        return false;
    }
    let mut k: usize = 0;
    while k < p.len()
        invariant
            start + p@.len() <= end <= s@.len(),
            k <= p@.len(),
            forall|j: int| 0 <= j < k ==> s@[start + j] == p@[j],
        decreases p@.len() - k,
    {
        if s[start + k] != p[k] {
            assert(s@.subrange(start as int, end as int).take(p@.len() as int)[k as int] != p@[k as int]);
            return false;
        }
        k = k + 1;
    }
    assert(s@.subrange(start as int, end as int).take(p@.len() as int) =~= p@);
    true
}

/// The numbers of added and removed lines of a unified diff; the file
/// headers (`+++`, `---`) and hunk markers do not count.
pub fn count_diff_lines(diff: &str) -> (r: (usize, usize))
    ensures
        (r.0 as nat, r.1 as nat) == diff_counts(diff@),
{
    let s = chars_of(diff);
    let newline = vec!['\n'];
    let plus3 = vec!['+', '+', '+'];
    let minus3 = vec!['-', '-', '-'];
    let at2 = vec!['@', '@'];
    assert(newline@ == seq!['\n']);
    proof {
        reveal_strlit("+++");
        reveal_strlit("---");
        reveal_strlit("@@");
        assert(plus3@ == "+++"@);
        assert(minus3@ == "---"@);
        assert(at2@ == "@@"@);
    }
    let mut adds: usize = 0;
    let mut dels: usize = 0;
    let mut i: usize = 0;
    while i < s.len()
        invariant
            s@ == diff@,
            newline@ == seq!['\n'],
            plus3@ == "+++"@,
            minus3@ == "---"@,
            at2@ == "@@"@,
            i <= s@.len(),
            adds <= i,
            dels <= i,
            ({
                let rest = diff_counts_from(s@, i as nat);
                diff_counts(s@) == ((adds + rest.0) as nat, (dels + rest.1) as nat)
            }),
        decreases s@.len() - i,
    {
        proof {
            lemma_find_from_bounds(s@, seq!['\n'], i as nat);
        }
        let end = match find_from_exec(s.as_slice(), newline.as_slice(), i) {
            Some(k) => k,
            None => s.len(),
        };
        let skip = starts_with_at(s.as_slice(), i, end, plus3.as_slice())
            || starts_with_at(s.as_slice(), i, end, minus3.as_slice())
            || starts_with_at(s.as_slice(), i, end, at2.as_slice());
        if !skip && end > i {
            assert(s@.subrange(i as int, end as int)[0] == s@[i as int]);
            if s[i] == '+' {
                adds = adds + 1;
            } else if s[i] == '-' {
                dels = dels + 1;
            }
        }
        if end >= s.len() {
            i = s.len();
        } else {
            i = end + 1;
        }
    }
    (adds, dels)
}

/// The path starts like a Windows drive (`C:`) or share (`\\`).
pub open spec fn has_windows_root(p: Seq<char>) -> bool {
    (p.len() >= 2 && (('a' <= p[0] <= 'z') || ('A' <= p[0] <= 'Z')) && p[1] == ':')
        || (p.len() >= 2 && p[0] == '\\' && p[1] == '\\')
}

/// Some `/`-separated component of the path is `..`.
pub open spec fn has_parent_component(p: Seq<char>) -> bool {
    exists|i: int| 0 <= i && i + 2 <= p.len() && (i == 0 || p[i - 1] == '/') && #[trigger] p[i] == '.'
        && p[i + 1] == '.' && (i + 2 == p.len() || p[i + 2] == '/')
}

/// Why a path is not a safe workspace-relative path, `None` where it is:
/// an absolute path (a Unix root, a Windows drive or share) or a component
/// that climbs out (`..`).
pub open spec fn relative_path_error(p: Seq<char>) -> Option<Seq<char>> {
    if has_windows_root(p) || (p.len() > 0 && p[0] == '/') {
        Some("路径不允许为绝对路径"@)
    } else if has_parent_component(p) {
        Some("路径不允许包含 .."@)
    } else {
        None
    }
}

/// The path itself where it is a safe workspace-relative path.
pub fn safe_relative_path(file_path: &str) -> (r: Result<&str, ApiError>)
    ensures
        match r {
            Ok(p) => p@ == file_path@ && relative_path_error(file_path@) is None,
            Err(e) => relative_path_error(file_path@) matches Some(m) && e == ApiError::InvalidInput(e->InvalidInput_0)
                && e->InvalidInput_0@ == m,
        },
{
    let p = chars_of(file_path);
    let n = p.len();
    let windows = n >= 2 && ((('a' <= p[0] && p[0] <= 'z') || ('A' <= p[0] && p[0] <= 'Z')) && p[1] == ':'
        || (p[0] == '\\' && p[1] == '\\'));
    if windows || (n > 0 && p[0] == '/') {
        return Err(ApiError::invalid_input("路径不允许为绝对路径"));
    }
    let mut i: usize = 0;
    while n >= 2 && i <= n - 2
        invariant
            p@ == file_path@,
            n == p@.len(),
            relative_path_error(file_path@) is None || has_parent_component(file_path@),
            !has_windows_root(file_path@) && !(n > 0 && p@[0] == '/'),
            forall|k: int| 0 <= k < i && k + 2 <= n && (k == 0 || p@[k - 1] == '/') && #[trigger] p@[k] == '.'
                ==> !(p@[k + 1] == '.' && (k + 2 == n || p@[k + 2] == '/')),
        decreases n - i,
    {
        if (i == 0 || p[i - 1] == '/') && p[i] == '.' && p[i + 1] == '.' && (i + 2 == n || p[i + 2] == '/') {
            return Err(ApiError::invalid_input("路径不允许包含 .."));
        }
        i = i + 1;
    }
    Ok(file_path)
}

/// The answer to a path that cannot be read: it does not say which path or
/// why.
pub fn path_access_error() -> (r: ApiError)
    ensures
        r matches ApiError::InvalidInput(m) && m@ == "路径不可读取或不存在"@,
{
    ApiError::invalid_input("路径不可读取或不存在")
}

/// Where the pending changes of a session stand.
#[derive(Clone, Debug, PartialEq, Eq)]
pub struct PendingChangesStateDto {
    pub status: String,
    pub reason_code: Option<String>,
    pub session_id: Option<String>,
    pub workspace_id: Option<String>,
    pub workspace_path: Option<String>,
    pub pending_count: usize,
}

/// The state of a session's pending changes, field for field.
pub fn pending_changes_state(
    status: &str,
    session_id: Option<&str>,
    workspace_id: Option<&str>,
    workspace_path: Option<&str>,
    pending_count: usize,
    reason_code: Option<&str>,
) -> (r: PendingChangesStateDto)
    ensures
        r.status@ == status@,
        opt_string_view(r.reason_code) == opt_str_view(reason_code),
        opt_string_view(r.session_id) == opt_str_view(session_id),
        opt_string_view(r.workspace_id) == opt_str_view(workspace_id),
        opt_string_view(r.workspace_path) == opt_str_view(workspace_path),
        r.pending_count == pending_count,
{
    PendingChangesStateDto {
        status: str_to_string(status),
        reason_code: opt_to_string(reason_code),
        session_id: opt_to_string(session_id),
        workspace_id: opt_to_string(workspace_id),
        workspace_path: opt_to_string(workspace_path),
        pending_count,
    }
}

fn opt_to_string(value: Option<&str>) -> (r: Option<String>)
    ensures
        opt_string_view(r) == opt_str_view(value),
{
    match value {
        Some(v) => Some(str_to_string(v)),
        None => None,
    }
}

/// A pending change as the snapshot ledger reports it.
#[derive(Clone, Debug)]
pub struct PendingChange {
    pub path: String,
    pub change_kind: ChangeKind,
    pub content_kind: ContentKind,
    pub source: SourceKind,
    pub unified_diff: Option<String>,
    pub timestamp_ms: u64,
    pub size: u64,
    pub mime: Option<String>,
    pub old_path: Option<String>,
    pub error: Option<String>,
    pub revertible: bool,
    pub symlink_target: Option<String>,
    pub head_summary: Option<String>,
    pub tail_summary: Option<String>,
    pub tool_call_id: Option<String>,
    pub worker_id: Option<String>,
    pub execution_group_id: Option<String>,
}

/// Whose changes are projected, and where they live.
#[derive(Clone, Debug)]
pub struct SessionChangeScope {
    pub session_id: String,
    pub workspace_id: String,
    pub workspace_root: String,
    pub execution_group_id: String,
    pub contributors: Vec<String>,
}

/// The summary of a pending change that the client lists; the diff and the
/// contents are left to the detail request.
#[derive(Clone, Debug)]
pub struct PendingChangeDto {
    pub session_id: String,
    pub workspace_id: String,
    pub workspace_path: String,
    pub file_path: String,
    pub snapshot_id: String,
    pub updated_at: u64,
    pub change_type: String,
    pub additions: usize,
    pub deletions: usize,
    pub diff: String,
    pub original_content: Option<String>,
    pub preview_content: Option<String>,
    pub preview_absolute_path: String,
    pub preview_can_open_workspace_file: bool,
    pub content_kind: String,
    pub size: u64,
    pub mime: Option<String>,
    pub source_kind: String,
    pub old_path: Option<String>,
    pub has_error: bool,
    pub revertible: bool,
    pub symlink_target: Option<String>,
    pub head_summary: Option<String>,
    pub tail_summary: Option<String>,
    pub tool_call_id: Option<String>,
    pub worker_id: Option<String>,
    pub contributors: Vec<String>,
    pub execution_group_id: String,
}

/// `dto` summarizes `change` in `scope`: the change's own execution group
/// or else the scope's, the diff's counts, whether the client can open the
/// file (added, modified or renamed, and a regular file at
/// `absolute_path`), whether an error is reported, and the change's fields.
pub open spec fn is_dto_of(
    dto: PendingChangeDto,
    scope: SessionChangeScope,
    change: PendingChange,
    absolute_path: Seq<char>,
    is_file: bool,
) -> bool {
    let group = match opt_string_view(change.execution_group_id) {
        Some(g) => g,
        None => scope.execution_group_id@,
    };
    let counts = diff_counts(match opt_string_view(change.unified_diff) { Some(d) => d, None => Seq::empty() });
    &&& dto.session_id@ == scope.session_id@
    &&& dto.workspace_id@ == scope.workspace_id@
    &&& dto.workspace_path@ == scope.workspace_root@
    &&& dto.file_path@ == change.path@
    &&& dto.snapshot_id@ == group + ":"@ + change.path@
    &&& dto.updated_at == change.timestamp_ms
    &&& dto.change_type@ == change_kind_name(change.change_kind)
    &&& dto.additions == counts.0
    &&& dto.deletions == counts.1
    &&& dto.diff@.len() == 0
    &&& dto.original_content is None
    &&& dto.preview_content is None
    &&& dto.preview_absolute_path@ == absolute_path
    &&& dto.preview_can_open_workspace_file == ((change.change_kind == ChangeKind::Added
        || change.change_kind == ChangeKind::Modified || change.change_kind == ChangeKind::Renamed) && is_file)
    &&& dto.content_kind@ == content_kind_name(change.content_kind)
    &&& dto.size == change.size
    &&& dto.mime == change.mime
    &&& dto.source_kind@ == source_kind_name(change.source)
    &&& dto.old_path == change.old_path
    &&& dto.has_error == (opt_string_view(change.error) matches Some(e) && trim(e).len() > 0)
    &&& dto.revertible == change.revertible
    &&& dto.symlink_target == change.symlink_target
    &&& dto.head_summary == change.head_summary
    &&& dto.tail_summary == change.tail_summary
    &&& dto.tool_call_id == change.tool_call_id
    &&& dto.worker_id == change.worker_id
    &&& dto.contributors@ == scope.contributors@
    &&& dto.execution_group_id@ == group
}

/// The summary DTO of a pending change, given the file's absolute path in
/// the workspace and whether a regular file stands there.
pub fn convert_pending(scope: &SessionChangeScope, change: PendingChange, absolute_path: String, is_file: bool) -> (r: PendingChangeDto)
    ensures
        is_dto_of(r, *scope, change, absolute_path@, is_file),
{
    let ghost original = change;
    let execution_group_id = match &change.execution_group_id {
        Some(g) => g.clone(),
        None => scope.execution_group_id.clone(),
    };
    let openable = match change.change_kind {
        ChangeKind::Added | ChangeKind::Modified | ChangeKind::Renamed => is_file,
        ChangeKind::Deleted => false,
    };
    let counts = match &change.unified_diff {
        Some(d) => count_diff_lines(d.as_str()),
        None => count_diff_lines(""),
    };
    proof {
        reveal_strlit("");
    }
    let has_error = match &change.error {
        Some(e) => {
            let t = crate::text::trimmed(e.as_str());
            !t.as_str().is_empty()
        },
        None => false,
    };
    let mut snapshot_id = execution_group_id.clone();
    snapshot_id.append(":");
    snapshot_id.append(change.path.as_str());
    let mut contributors: Vec<String> = Vec::new();
    let mut i: usize = 0;
    while i < scope.contributors.len()
        invariant
            i <= scope.contributors@.len(),
            contributors@ == scope.contributors@.take(i as int),
        decreases scope.contributors@.len() - i,
    {
        contributors.push(scope.contributors[i].clone());
        assert(scope.contributors@.take(i + 1) == scope.contributors@.take(i as int).push(scope.contributors@[i as int]));
        i = i + 1;
    }
    assert(scope.contributors@.take(scope.contributors@.len() as int) == scope.contributors@);
    PendingChangeDto {
        session_id: scope.session_id.clone(),
        workspace_id: scope.workspace_id.clone(),
        workspace_path: scope.workspace_root.clone(),
        file_path: change.path.clone(),
        snapshot_id,
        updated_at: change.timestamp_ms,
        change_type: change_kind_to_string(change.change_kind),
        additions: counts.0,
        deletions: counts.1,
        diff: String::new(),
        original_content: None,
        preview_content: None,
        preview_absolute_path: absolute_path,
        preview_can_open_workspace_file: openable,
        content_kind: content_kind_to_string(change.content_kind),
        size: change.size,
        mime: change.mime,
        source_kind: source_kind_to_string(change.source),
        old_path: change.old_path,
        has_error,
        revertible: change.revertible,
        symlink_target: change.symlink_target,
        head_summary: change.head_summary,
        tail_summary: change.tail_summary,
        tool_call_id: change.tool_call_id,
        worker_id: change.worker_id,
        contributors,
        execution_group_id,
    }
}

pub open spec fn file_paths(v: Seq<PendingChangeDto>) -> Seq<Seq<char>> {
    v.map_values(|d: PendingChangeDto| d.file_path@)
}

/// The order of the DTOs: by file path.
pub open spec fn by_file_path() -> spec_fn(PendingChangeDto, PendingChangeDto) -> bool {
    |a: PendingChangeDto, b: PendingChangeDto| crate::ordering::lex_le(a.file_path@, b.file_path@)
}

/// Sorts the DTOs by file path, keeping the order of equal paths.
pub fn sort_by_file_path(items: Vec<PendingChangeDto>) -> (r: Vec<PendingChangeDto>)
    ensures
        r@ == crate::ordering::stable_sort_by(items@, by_file_path()),
        crate::ordering::sorted(file_paths(r@)),
        r@.to_multiset() == items@.to_multiset(),
{
    let mut out: Vec<PendingChangeDto> = Vec::new();
    let mut rest = items;
    let ghost all = rest@;
    let n = rest.len();
    let mut k: usize = 0;
    assert(all.take(0) =~= out@);
    assert(all.skip(0) =~= all);
    while rest.len() > 0
        invariant
            k + rest@.len() == all.len(),
            all.len() == n,
            rest@ == all.skip(k as int),
            out@ == crate::ordering::stable_sort_by(all.take(k as int), by_file_path()),
            crate::ordering::sorted(file_paths(out@)),
            out@.to_multiset() == all.take(k as int).to_multiset(),
        decreases rest@.len(),
    {
        let ghost old_rest = rest@;
        let x = rest.remove(0);
        proof {
            assert(x == all[k as int]);
            assert(rest@ =~= all.skip(k + 1));
            assert(all.take(k + 1) == all.take(k as int).push(x));
        }
        let ghost before = out@;
        let mut pos: usize = out.len();
        while pos > 0 && !crate::ordering::str_le(out[pos - 1].file_path.as_str(), x.file_path.as_str())
            invariant
                pos <= out@.len(),
                before == out@,
                forall|j: int| pos <= j < out@.len() ==> crate::ordering::lex_lt(x.file_path@, #[trigger] out@[j].file_path@),
            decreases pos,
        {
            proof {
                crate::ordering::lemma_lex_total(x.file_path@, out@[pos - 1].file_path@);
                if x.file_path@ == out@[pos - 1].file_path@ {
                    crate::ordering::lemma_lex_reflexive(x.file_path@);
                }
            }
            pos = pos - 1;
        }
        out.insert(pos, x);
        proof {
            let after = out@;
            assert(after =~= before.insert(pos as int, x));
            assert(all.take(k + 1).drop_last() == all.take(k as int));
            assert forall|j: int| pos <= j < before.len() implies !(by_file_path())(#[trigger] before[j], x) by {
                crate::ordering::lemma_lex_lt_not_le(x.file_path@, before[j].file_path@);
            }
            crate::ordering::lemma_insert_stable_at(before, x, by_file_path(), pos as int);
            let fb = file_paths(before);
            let fa = file_paths(after);
            assert forall|i: int, j: int| 0 <= i < j < fa.len() implies crate::ordering::lex_le(#[trigger] fa[i], #[trigger] fa[j]) by {
                assert(fa[i] == after[i].file_path@ && fa[j] == after[j].file_path@);
                if j < pos {
                    assert(fb[i] == before[i].file_path@ && fb[j] == before[j].file_path@);
                } else if j == pos {
                    assert(after[i] == before[i]);
                    if pos > 0 {
                        assert(crate::ordering::lex_le(before[pos - 1].file_path@, x.file_path@));
                        if i < pos - 1 {
                            assert(fb[i] == before[i].file_path@ && fb[pos - 1] == before[pos - 1].file_path@);
                            crate::ordering::lemma_lex_transitive(before[i].file_path@, before[pos - 1].file_path@, x.file_path@);
                        }
                    }
                } else if i < pos {
                    assert(after[i] == before[i] && after[j] == before[j - 1]);
                    assert(fb[i] == before[i].file_path@ && fb[j - 1] == before[j - 1].file_path@);
                } else if i == pos {
                    assert(after[j] == before[j - 1]);
                } else {
                    assert(after[i] == before[i - 1] && after[j] == before[j - 1]);
                    assert(fb[i - 1] == before[i - 1].file_path@ && fb[j - 1] == before[j - 1].file_path@);
                }
            }
            vstd::seq_lib::to_multiset_insert(before, pos as int, x);
            all.take(k as int).to_multiset_ensures();
            assert(all.take(k as int).push(x).to_multiset() =~= all.take(k as int).to_multiset().insert(x));
            assert(out@.to_multiset() =~= all.take(k + 1).to_multiset());
        }
        k = k + 1;
    }
    assert(all.take(k as int) == all);
    out
}

/// A session's pending changes, and where they stand.
#[derive(Clone, Debug)]
pub struct SessionPendingChangesProjection {
    pub pending_changes: Vec<PendingChangeDto>,
    pub state: PendingChangesStateDto,
}

/// The projection of a session whose changes were read: sorted by file
/// path, and ready.
pub fn ready_projection(scope: &SessionChangeScope, pending: Vec<PendingChangeDto>) -> (r: SessionPendingChangesProjection)
    ensures
        r.pending_changes@ == crate::ordering::stable_sort_by(pending@, by_file_path()),
        crate::ordering::sorted(file_paths(r.pending_changes@)),
        r.pending_changes@.to_multiset() == pending@.to_multiset(),
        r.state.status@ == "ready"@,
        r.state.reason_code is None,
        opt_string_view(r.state.session_id) == Some(scope.session_id@),
        opt_string_view(r.state.workspace_id) == Some(scope.workspace_id@),
        opt_string_view(r.state.workspace_path) == Some(scope.workspace_root@),
        r.state.pending_count == pending@.len(),
{
    proof {
        pending@.to_multiset_ensures();
    }
    let pending_changes = sort_by_file_path(pending);
    proof {
        pending_changes@.to_multiset_ensures();
    }
    let state = pending_changes_state(
        "ready",
        Some(scope.session_id.as_str()),
        Some(scope.workspace_id.as_str()),
        Some(scope.workspace_root.as_str()),
        pending_changes.len(),
        None,
    );
    SessionPendingChangesProjection { pending_changes, state }
}

/// What the snapshot ledger gives of a session's pending changes.
#[derive(Clone, Debug)]
pub enum PendingChangesRead {
    /// The session has no snapshot yet.
    NoSnapshot,
    /// The snapshot could not list its changes.
    Failed,
    /// The session's changes.
    Read(Vec<PendingChangeDto>),
}

/// `st` is the state of this phase, field for field.
pub open spec fn state_is(
    st: PendingChangesStateDto,
    status: Seq<char>,
    session_id: Seq<char>,
    workspace_id: Option<Seq<char>>,
    workspace_path: Option<Seq<char>>,
    pending_count: nat,
    reason_code: Option<Seq<char>>,
) -> bool {
    &&& st.status@ == status
    &&& opt_string_view(st.session_id) == Some(session_id)
    &&& opt_string_view(st.workspace_id) == workspace_id
    &&& opt_string_view(st.workspace_path) == workspace_path
    &&& st.pending_count == pending_count
    &&& opt_string_view(st.reason_code) == reason_code
}

/// A session's pending changes and where they stand: `unavailable` without
/// a bound workspace or a known root for it, `not_ready` before its
/// snapshot exists, `error` where the snapshot cannot list its changes, and
/// else `ready` with the changes sorted by file path.
pub fn session_pending_changes(
    session_id: &str,
    bound_workspace_id: Option<&str>,
    workspace_root: Option<&str>,
    read: PendingChangesRead,
) -> (r: SessionPendingChangesProjection)
    ensures
        match (bound_workspace_id, workspace_root) {
            (None, _) => r.pending_changes@.len() == 0
                && state_is(r.state, "unavailable"@, session_id@, None, None, 0, Some("workspace_unavailable"@)),
            (Some(w), None) => r.pending_changes@.len() == 0
                && state_is(r.state, "unavailable"@, session_id@, Some(w@), None, 0, Some("workspace_unavailable"@)),
            (Some(w), Some(root)) => match read {
                PendingChangesRead::NoSnapshot => r.pending_changes@.len() == 0
                    && state_is(r.state, "not_ready"@, session_id@, Some(w@), Some(root@), 0, Some("changes_preparing"@)),
                PendingChangesRead::Failed => r.pending_changes@.len() == 0
                    && state_is(r.state, "error"@, session_id@, Some(w@), Some(root@), 0, Some("changes_unavailable"@)),
                PendingChangesRead::Read(items) => r.pending_changes@ == crate::ordering::stable_sort_by(items@, by_file_path())
                    && state_is(r.state, "ready"@, session_id@, Some(w@), Some(root@), items@.len(), None),
            },
        },
{
    let (w, root) = match (bound_workspace_id, workspace_root) {
        (Some(w), Some(root)) => (w, root),
        (w, _) => {
            return SessionPendingChangesProjection {
                pending_changes: Vec::new(),
                state: pending_changes_state("unavailable", Some(session_id), w, None, 0, Some("workspace_unavailable")),
            };
        },
    };
    match read {
        PendingChangesRead::NoSnapshot => SessionPendingChangesProjection {
            pending_changes: Vec::new(),
            state: pending_changes_state("not_ready", Some(session_id), Some(w), Some(root), 0, Some("changes_preparing")),
        },
        PendingChangesRead::Failed => SessionPendingChangesProjection {
            pending_changes: Vec::new(),
            state: pending_changes_state("error", Some(session_id), Some(w), Some(root), 0, Some("changes_unavailable")),
        },
        PendingChangesRead::Read(items) => {
            let count = items.len();
            let pending_changes = sort_by_file_path(items);
            SessionPendingChangesProjection {
                pending_changes,
                state: pending_changes_state("ready", Some(session_id), Some(w), Some(root), count, None),
            }
        },
    }
}

/// `会话 {session} 不属于 workspace {requested}` where a workspace other than
/// the bound one is asked for.
pub open spec fn workspace_mismatch(
    session_id: Seq<char>,
    requested: Option<Seq<char>>,
    bound: Option<Seq<char>>,
) -> Option<Seq<char>> {
    match (crate::text::non_empty_trimmed(requested), bound) {
        (Some(r), Some(b)) => if r != b {
            Some("会话 "@ + session_id + " 不属于 workspace "@ + r)
        } else {
            None
        },
        _ => None,
    }
}

/// Refuses a request for a workspace the session is not bound to.
pub fn check_requested_workspace(session_id: &str, requested: Option<&str>, bound: Option<&str>) -> (r: Result<(), ApiError>)
    ensures
        match r {
            Ok(()) => workspace_mismatch(session_id@, opt_str_view(requested), opt_str_view(bound)) is None,
            Err(e) => workspace_mismatch(session_id@, opt_str_view(requested), opt_str_view(bound)) matches Some(m)
                && e matches ApiError::InvalidInput(msg) && msg@ == m,
        },
{
    match (crate::text::trimmed_non_empty(requested), bound) {
        (Some(r), Some(b)) => {
            if !crate::text::str_eq(r.as_str(), b) {
                let mut msg = crate::text::concat("会话 ", session_id);
                msg.append(" 不属于 workspace ");
                msg.append(r.as_str());
                return Err(ApiError::InvalidInput(msg));
            }
            Ok(())
        },
        _ => Ok(()),
    }
}

/// The execution group of a session's changes: an explicit non-blank one,
/// else the session's mission, else the session itself.
pub open spec fn execution_group(override_id: Option<Seq<char>>, mission_id: Option<Seq<char>>, session_id: Seq<char>) -> Seq<char> {
    match crate::text::non_empty_trimmed(override_id) {
        Some(g) => g,
        None => match mission_id {
            Some(m) => m,
            None => "session:"@ + session_id,
        },
    }
}

/// The execution group of a session's changes (see [`execution_group`]).
pub fn session_execution_group(override_id: Option<&str>, mission_id: Option<&str>, session_id: &str) -> (r: String)
    ensures
        r@ == execution_group(opt_str_view(override_id), opt_str_view(mission_id), session_id@),
{
    match crate::text::trimmed_non_empty(override_id) {
        Some(g) => g,
        None => match mission_id {
            Some(m) => str_to_string(m),
            None => crate::text::concat("session:", session_id),
        },
    }
}

/// The id is not blank.
pub open spec fn non_blank(w: Seq<char>) -> bool {
    trim(w).len() > 0
}

/// The workers that contributed to a session's changes: the non-blank ids
/// of its branches' workers and of its bound workers, sorted, each once.
pub fn scope_contributors(branch_workers: Vec<String>, worker_bindings: Vec<String>) -> (r: Vec<String>)
    ensures
        crate::ordering::strictly_sorted(crate::ordering::views(r@)),
        crate::ordering::views(r@).to_set() == (crate::ordering::views(branch_workers@)
            + crate::ordering::views(worker_bindings@)).filter(|w: Seq<char>| non_blank(w)).to_set(),
{
    let ghost pool = crate::ordering::views(branch_workers@) + crate::ordering::views(worker_bindings@);
    let mut combined = branch_workers;
    let mut second = worker_bindings;
    combined.append(&mut second);
    assert(crate::ordering::views(combined@) =~= pool);
    let ghost keep = |w: Seq<char>| non_blank(w);
    let mut all: Vec<String> = Vec::new();
    let mut i: usize = 0;
    assert(pool.take(0).filter(keep) =~= Seq::<Seq<char>>::empty()) by {
        reveal(Seq::filter);
    }
    while i < combined.len()
        invariant
            i <= combined@.len(),
            pool == crate::ordering::views(combined@),
            forall|w: Seq<char>| #[trigger] keep(w) == non_blank(w),
            crate::ordering::views(all@) == pool.take(i as int).filter(keep),
        decreases combined@.len() - i,
    {
        let ghost before = crate::ordering::views(all@);
        let w = &combined[i];
        proof {
            reveal(Seq::filter);
            assert(pool.take(i + 1).drop_last() == pool.take(i as int));
            assert(pool.take(i + 1).last() == w@);
        }
        let t = crate::text::trimmed(w.as_str());
        if !t.as_str().is_empty() {
            all.push(w.clone());
            assert(crate::ordering::views(all@) =~= before.push(w@));
        }
        i = i + 1;
    }
    assert(pool.take(combined@.len() as int) == pool);
    crate::ordering::sorted_unique(all)
}

/// The root of the workspace with this id among the registered ones.
pub open spec fn workspace_root_of(workspaces: Seq<(String, String)>, id: Seq<char>) -> Option<Seq<char>>
    decreases workspaces.len(),
{
    if workspaces.len() == 0 {
        None
    } else if workspaces[0].0@ == id {
        Some(workspaces[0].1@)
    } else {
        workspace_root_of(workspaces.drop_first(), id)
    }
}

/// The root of a registered workspace; `workspace 不存在` for an unknown id.
pub fn resolve_workspace_root(workspaces: &Vec<(String, String)>, workspace_id: &str) -> (r: Result<String, ApiError>)
    ensures
        match r {
            Ok(root) => workspace_root_of(workspaces@, workspace_id@) == Some(root@),
            Err(e) => workspace_root_of(workspaces@, workspace_id@) is None
                && (e matches ApiError::NotFound { resource, id } && resource@ == "workspace 不存在"@ && id@ == workspace_id@),
        },
{
    let mut i: usize = 0;
    assert(workspaces@.skip(0) == workspaces@);
    while i < workspaces.len()
        invariant
            i <= workspaces@.len(),
            workspace_root_of(workspaces@, workspace_id@) == workspace_root_of(workspaces@.skip(i as int), workspace_id@),
        decreases workspaces@.len() - i,
    {
        assert(workspaces@.skip(i as int)[0] == workspaces@[i as int]);
        assert(workspaces@.skip(i as int).drop_first() == workspaces@.skip(i + 1));
        if crate::text::str_eq(workspaces[i].0.as_str(), workspace_id) {
            return Ok(workspaces[i].1.clone());
        }
        i = i + 1;
    }
    Err(ApiError::NotFound { resource: str_to_string("workspace 不存在"), id: str_to_string(workspace_id) })
}

/// What the store knows of a session, for resolving its change scope.
#[derive(Clone, Debug)]
pub struct SessionScopeFacts {
    pub session_id: String,
    /// The workspace its execution ownership names.
    pub ownership_workspace_id: Option<String>,
    /// The workspace the session itself is bound to.
    pub session_workspace_id: Option<String>,
    pub mission_id: Option<String>,
    /// The workers of its active execution chain's branches.
    pub branch_workers: Vec<String>,
    /// The workers bound to its active execution chain.
    pub worker_bindings: Vec<String>,
}

/// The workspace a session's changes belong to: its ownership's, else the
/// session's own.
pub open spec fn bound_workspace(facts: SessionScopeFacts) -> Option<Seq<char>> {
    match opt_string_view(facts.ownership_workspace_id) {
        Some(w) => Some(w),
        None => opt_string_view(facts.session_workspace_id),
    }
}

/// The change scope of a session: its bound workspace (a request for
/// another is refused), that workspace's root, its execution group and its
/// contributors.
pub fn resolve_session_change_scope(
    facts: SessionScopeFacts,
    workspaces: &Vec<(String, String)>,
    requested_workspace_id: Option<&str>,
    execution_group_override: Option<&str>,
) -> (r: Result<SessionChangeScope, ApiError>)
    ensures
        bound_workspace(facts) is None ==> (r matches Err(ApiError::InvalidInput(m))
            && m@ == "当前会话未绑定 workspace，不能执行变更操作"@),
        bound_workspace(facts) matches Some(b) ==> match workspace_mismatch(facts.session_id@, opt_str_view(requested_workspace_id), Some(b)) {
            Some(m) => r matches Err(ApiError::InvalidInput(msg)) && msg@ == m,
            None => match workspace_root_of(workspaces@, b) {
                None => r matches Err(ApiError::NotFound { resource, id }) && id@ == b,
                Some(root) => r matches Ok(scope) && {
                    &&& scope.session_id@ == facts.session_id@
                    &&& scope.workspace_id@ == b
                    &&& scope.workspace_root@ == root
                    &&& scope.execution_group_id@ == execution_group(
                        opt_str_view(execution_group_override),
                        opt_string_view(facts.mission_id),
                        facts.session_id@,
                    )
                    &&& crate::ordering::strictly_sorted(crate::ordering::views(scope.contributors@))
                    &&& crate::ordering::views(scope.contributors@).to_set() == (crate::ordering::views(facts.branch_workers@)
                        + crate::ordering::views(facts.worker_bindings@)).filter(|w: Seq<char>| non_blank(w)).to_set()
                },
            },
        },
{
    let bound = match &facts.ownership_workspace_id {
        Some(w) => w.clone(),
        None => match &facts.session_workspace_id {
            Some(w) => w.clone(),
            None => {
                return Err(ApiError::invalid_input("当前会话未绑定 workspace，不能执行变更操作"));
            },
        },
    };
    check_requested_workspace(facts.session_id.as_str(), requested_workspace_id, Some(bound.as_str()))?;
    let mission = crate::text::opt_as_str(&facts.mission_id);
    let execution_group_id = session_execution_group(execution_group_override, mission, facts.session_id.as_str());
    let workspace_root = resolve_workspace_root(workspaces, bound.as_str())?;
    let contributors = scope_contributors(facts.branch_workers, facts.worker_bindings);
    Ok(SessionChangeScope {
        session_id: facts.session_id,
        workspace_id: bound,
        workspace_root,
        execution_group_id,
        contributors,
    })
}

/// What a file path asks for: a host path reference to decode, an
/// absolute path, or a path relative to the workspace.
#[derive(Clone, Debug, PartialEq, Eq)]
pub enum WorkspacePathInput {
    PathRef(String),
    Absolute(String),
    Relative(String),
}

/// How a file path is read: trimmed; empty is refused; `mhp1:` marks a
/// host path reference; a leading `/` an absolute path; anything else must
/// be a safe relative path.
/// The kinds are numbered: 0 a path reference, 1 absolute, 2 relative.
pub open spec fn path_input_of(file_path: Seq<char>) -> Result<(u8, Seq<char>), Seq<char>> {
    let t = trim(file_path);
    if t.len() == 0 {
        Err("文件路径不能为空"@)
    } else if starts_with(t, "mhp1:"@) {
        Ok((0u8, t))
    } else if t[0] == '/' {
        Ok((1u8, t))
    } else if relative_path_error(t) is Some {
        Err(relative_path_error(t)->0)
    } else {
        Ok((2u8, t))
    }
}

/// Reads a file path of a workspace request (see [`path_input_of`]).
pub fn workspace_path_input(file_path: &str) -> (r: Result<WorkspacePathInput, ApiError>)
    ensures
        match (r, path_input_of(file_path@)) {
            (Ok(WorkspacePathInput::PathRef(p)), Ok((0u8, t))) => p@ == t,
            (Ok(WorkspacePathInput::Absolute(p)), Ok((1u8, t))) => p@ == t,
            (Ok(WorkspacePathInput::Relative(p)), Ok((2u8, t))) => p@ == t,
            (Err(ApiError::InvalidInput(m)), Err(message)) => m@ == message,
            _ => false,
        },
{
    let t = crate::text::trimmed(file_path);
    if t.as_str().is_empty() {
        return Err(ApiError::invalid_input("文件路径不能为空"));
    }
    let chars = chars_of(t.as_str());
    let marker = vec!['m', 'h', 'p', '1', ':'];
    proof {
        reveal_strlit("mhp1:");
        assert(marker@ == "mhp1:"@);
    }
    if starts_with_at(chars.as_slice(), 0, chars.len(), marker.as_slice()) {
        assert(chars@.subrange(0, chars@.len() as int) == chars@);
        return Ok(WorkspacePathInput::PathRef(t));
    }
    assert(chars@.subrange(0, chars@.len() as int) == chars@);
    if chars[0] == '/' {
        return Ok(WorkspacePathInput::Absolute(t));
    }
    match safe_relative_path(t.as_str()) {
        Ok(_) => Ok(WorkspacePathInput::Relative(t)),
        Err(e) => Err(e),
    }
}

/// A canonical path inside a canonical root, relative to the root; `None`
/// outside it (component-wise, as `Path::strip_prefix` on normalized paths).
pub open spec fn relative_to_root(root: Seq<char>, path: Seq<char>) -> Option<Seq<char>> {
    if path == root {
        Some(Seq::empty())
    } else if root.len() > 0 && root.last() == '/' && starts_with(path, root) {
        Some(path.skip(root.len() as int))
    } else if starts_with(path, root.push('/')) {
        Some(path.skip(root.len() as int + 1))
    } else {
        None
    }
}

/// The path of a canonical file relative to the canonical workspace root;
/// `路径越出工作区边界` for a file outside it.
pub fn workspace_relative_path(canonical_root: &str, canonical_path: &str) -> (r: Result<String, ApiError>)
    ensures
        match r {
            Ok(rel) => relative_to_root(canonical_root@, canonical_path@) == Some(rel@),
            Err(e) => relative_to_root(canonical_root@, canonical_path@) is None
                && (e matches ApiError::InvalidInput(m) && m@ == "路径越出工作区边界"@),
        },
{
    let root = chars_of(canonical_root);
    let path = chars_of(canonical_path);
    if crate::text::str_eq(canonical_root, canonical_path) {
        return Ok(String::new());
    }
    assert(path@.subrange(0, path@.len() as int) == path@);
    if root.len() > 0 && root[root.len() - 1] == '/' && starts_with_at(path.as_slice(), 0, path.len(), root.as_slice()) {
        let mut out: Vec<char> = Vec::new();
        crate::redaction::push_range(&mut out, path.as_slice(), root.len(), path.len());
        assert(path@.subrange(root@.len() as int, path@.len() as int) == path@.skip(root@.len() as int));
        return Ok(crate::text::string_from_chars(out.as_slice()));
    }
    let mut prefix = root.clone();
    prefix.push('/');
    assert(prefix@ == root@.push('/'));
    if starts_with_at(path.as_slice(), 0, path.len(), prefix.as_slice()) {
        let mut out: Vec<char> = Vec::new();
        crate::redaction::push_range(&mut out, path.as_slice(), prefix.len(), path.len());
        assert(path@.subrange(prefix@.len() as int, path@.len() as int) == path@.skip(root@.len() as int + 1));
        return Ok(crate::text::string_from_chars(out.as_slice()));
    }
    Err(ApiError::invalid_input("路径越出工作区边界"))
}

/// Each kind of change has its own name in the DTOs, and no two kinds share
/// one: an added file is an `add`, a modified one a `modify`, a deleted one
/// a `delete` and a renamed one a `rename`.
pub proof fn lemma_change_kinds_named_apart(a: ChangeKind, b: ChangeKind)
    ensures
        a != b ==> change_kind_name(a) != change_kind_name(b),
        a == ChangeKind::Added <==> change_kind_name(a) == "add"@,
        a == ChangeKind::Modified <==> change_kind_name(a) == "modify"@,
        a == ChangeKind::Deleted <==> change_kind_name(a) == "delete"@,
        a == ChangeKind::Renamed <==> change_kind_name(a) == "rename"@,
{
    reveal_strlit("add");
    reveal_strlit("modify");
    reveal_strlit("delete");
    reveal_strlit("rename");
    assert(change_kind_name(a).len() > 0 && change_kind_name(b).len() > 0);
    assert(a != b ==> (change_kind_name(a).len(), change_kind_name(a)[0]) != (change_kind_name(b).len(), change_kind_name(b)[0]));
    let n = change_kind_name(a);
    assert(n == "modify"@ ==> (n.len(), n[0]) == (6nat, 'm'));
    assert(n == "delete"@ ==> (n.len(), n[0]) == (6nat, 'd'));
    assert(n == "rename"@ ==> (n.len(), n[0]) == (6nat, 'r'));
    assert(n == "add"@ ==> (n.len(), n[0]) == (3nat, 'a'));
}

} // verus!
