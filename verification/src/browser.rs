//! The pure decisions of the browser tools: which DevTools operation a tool
//! runs, the validation of its arguments, of viewports, screenshot scopes and
//! screenshot files, and the errors and failure payloads that report them.

use vstd::prelude::*;
use sha2::{Digest, Sha256};
use crate::json::{json_text, print_json, JsonValue, JsonView};
use crate::text::{str_eq, str_to_string};

verus! {

/// How a browser tool call ended.
#[derive(Clone, Copy, Debug, PartialEq, Eq, Structural)]
pub enum ExecutionResultStatus {
    Succeeded,
    Failed,
    NeedsApproval,
    Rejected,
    Cancelled,
}

/// An error of a browser tool, with what the failure payload reports of it.
#[derive(Debug)]
pub struct BrowserToolError {
    pub code: String,
    pub message: String,
    pub recoverable: bool,
    pub requires_user_action: bool,
    pub details: Option<JsonValue>,
    pub status: ExecutionResultStatus,
}

impl BrowserToolError {
    /// A plain failure: not recoverable, no user action, no details.
    pub fn new(code: &str, message: &str) -> (r: Self)
        ensures
            r.code@ == code@,
            r.message@ == message@,
            !r.recoverable,
            !r.requires_user_action,
            r.details is None,
            r.status == ExecutionResultStatus::Failed,
    {
        BrowserToolError {
            code: str_to_string(code),
            message: str_to_string(message),
            recoverable: false,
            requires_user_action: false,
            details: None,
            status: ExecutionResultStatus::Failed,
        }
    }

    /// A plain failure whose message is built by the caller.
    pub fn with_message(code: &str, message: String) -> (r: Self)
        ensures
            r.code@ == code@,
            r.message@ == message@,
            !r.recoverable,
            !r.requires_user_action,
            r.details is None,
            r.status == ExecutionResultStatus::Failed,
    {
        BrowserToolError {
            code: str_to_string(code),
            message,
            recoverable: false,
            requires_user_action: false,
            details: None,
            status: ExecutionResultStatus::Failed,
        }
    }
}

/// The DevTools operation that a browser tool runs.
pub open spec fn devtools_operation(tool_name: Seq<char>) -> Option<Seq<char>> {
    if tool_name == "browser_wait_for"@ {
        Some("wait_for"@)
    } else if tool_name == "browser_hover"@ {
        Some("hover"@)
    } else if tool_name == "browser_drag"@ {
        Some("drag"@)
    } else if tool_name == "browser_fill_form"@ {
        Some("fill_form"@)
    } else if tool_name == "browser_dialog"@ {
        Some("dialog"@)
    } else if tool_name == "browser_upload_file"@ {
        Some("upload_file"@)
    } else if tool_name == "browser_click_at"@ {
        Some("click_at"@)
    } else if tool_name == "browser_evaluate"@ {
        Some("evaluate"@)
    } else if tool_name == "browser_console"@ {
        Some("console"@)
    } else if tool_name == "browser_network"@ {
        Some("network"@)
    } else if tool_name == "browser_emulate"@ {
        Some("emulate"@)
    } else if tool_name == "browser_performance"@ {
        Some("performance"@)
    } else if tool_name == "browser_lighthouse"@ {
        Some("lighthouse"@)
    } else if tool_name == "browser_heap"@ {
        Some("heap"@)
    } else if tool_name == "browser_third_party"@ {
        Some("third_party"@)
    } else if tool_name == "browser_webmcp"@ {
        Some("webmcp"@)
    } else if tool_name == "browser_pwa"@ {
        Some("pwa"@)
    } else {
        None
    }
}

/// The DevTools operation of a browser tool, `None` for a tool that runs
/// none.
pub fn browser_devtools_operation(tool_name: &str) -> (r: Option<&'static str>)
    ensures
        match r {
            Some(op) => devtools_operation(tool_name@) == Some(op@),
            None => devtools_operation(tool_name@) is None,
        },
{
    if str_eq(tool_name, "browser_wait_for") {
        Some("wait_for")
    } else if str_eq(tool_name, "browser_hover") {
        Some("hover")
    } else if str_eq(tool_name, "browser_drag") {
        Some("drag")
    } else if str_eq(tool_name, "browser_fill_form") {
        Some("fill_form")
    } else if str_eq(tool_name, "browser_dialog") {
        Some("dialog")
    } else if str_eq(tool_name, "browser_upload_file") {
        Some("upload_file")
    } else if str_eq(tool_name, "browser_click_at") {
        Some("click_at")
    } else if str_eq(tool_name, "browser_evaluate") {
        Some("evaluate")
    } else if str_eq(tool_name, "browser_console") {
        Some("console")
    } else if str_eq(tool_name, "browser_network") {
        Some("network")
    } else if str_eq(tool_name, "browser_emulate") {
        Some("emulate")
    } else if str_eq(tool_name, "browser_performance") {
        Some("performance")
    } else if str_eq(tool_name, "browser_lighthouse") {
        Some("lighthouse")
    } else if str_eq(tool_name, "browser_heap") {
        Some("heap")
    } else if str_eq(tool_name, "browser_third_party") {
        Some("third_party")
    } else if str_eq(tool_name, "browser_webmcp") {
        Some("webmcp")
    } else if str_eq(tool_name, "browser_pwa") {
        Some("pwa")
    } else {
        None
    }
}

/// A viewport the browser surface supports: 320 to 7680 wide, 240 to 4320
/// high.
pub open spec fn viewport_supported(width: u32, height: u32) -> bool {
    320 <= width <= 7680 && 240 <= height <= 4320
}

/// Accepts the viewports the browser surface supports.
pub fn validate_viewport_dimensions(width: u32, height: u32) -> (r: Result<(), BrowserToolError>)
    ensures
        r is Ok <==> viewport_supported(width, height),
        r matches Err(e) ==> e.code@ == "browser_viewport_invalid"@
            && e.message@ == "浏览器页面视口尺寸超出支持范围"@,
{
    if !(320 <= width && width <= 7680) || !(240 <= height && height <= 4320) {
        return Err(BrowserToolError::new("browser_viewport_invalid", "浏览器页面视口尺寸超出支持范围"));
    }
    Ok(())
}

/// Accepts device scale factors, in thousandths, from 500 to 4000.
pub fn validate_device_scale_factor(value: u32) -> (r: Result<(), BrowserToolError>)
    ensures
        r is Ok <==> 500 <= value <= 4000,
        r matches Err(e) ==> e.code@ == "browser_viewport_invalid"@
            && e.message@ == "浏览器页面设备像素比超出支持范围"@,
{
    if !(500 <= value && value <= 4000) {
        return Err(BrowserToolError::new("browser_viewport_invalid", "浏览器页面设备像素比超出支持范围"));
    }
    Ok(())
}

/// How many of the three screenshot scopes were asked for.
pub open spec fn scope_count(has_element_ref: bool, has_clip: bool, full_page: bool) -> nat {
    (if has_element_ref { 1nat } else { 0nat }) + (if has_clip { 1nat } else { 0nat }) + (if full_page {
        1nat
    } else {
        0nat
    })
}

/// Accepts at most one of an element, a clip and the full page as the
/// screenshot's scope.
pub fn validate_screenshot_scope(has_element_ref: bool, has_clip: bool, full_page: bool) -> (r: Result<(), BrowserToolError>)
    ensures
        r is Ok <==> scope_count(has_element_ref, has_clip, full_page) <= 1,
        r matches Err(e) ==> e.code@ == "invalid_screenshot_scope"@
            && e.message@ == "element_ref、clip、full_page 三者只能选择一个截图范围"@,
{
    let mut scopes: u8 = 0;
    if has_element_ref {
        scopes = scopes + 1;
    }
    if has_clip {
        scopes = scopes + 1;
    }
    if full_page {
        scopes = scopes + 1;
    }
    if scopes > 1 {
        return Err(BrowserToolError::new("invalid_screenshot_scope", "element_ref、clip、full_page 三者只能选择一个截图范围"));
    }
    Ok(())
}

/// The image format of a screenshot.
#[derive(Clone, Copy, Debug, PartialEq, Eq, Structural)]
pub enum BrowserScreenshotFormat {
    Png,
    Jpeg,
    Webp,
}

/// What the browser host announced of a binary payload.
#[derive(Clone, Debug)]
pub struct BrowserHostBinaryPayload {
    pub payload_id: String,
    pub mime_type: String,
    pub byte_length: u64,
    pub sha256: String,
}

/// The MIME type of a screenshot format.
pub open spec fn format_mime(format: BrowserScreenshotFormat) -> Seq<char> {
    match format {
        BrowserScreenshotFormat::Png => "image/png"@,
        BrowserScreenshotFormat::Jpeg => "image/jpeg"@,
        BrowserScreenshotFormat::Webp => "image/webp"@,
    }
}

/// The file starts with the signature of its format.
pub open spec fn has_format_header(format: BrowserScreenshotFormat, bytes: Seq<u8>) -> bool {
    match format {
        BrowserScreenshotFormat::Png => bytes.len() >= 8 && bytes.take(8) == seq![0x89u8, 0x50u8, 0x4eu8, 0x47u8, 0x0du8, 0x0au8, 0x1au8, 0x0au8],
        BrowserScreenshotFormat::Jpeg => bytes.len() >= 3 && bytes.take(3) == seq![0xffu8, 0xd8u8, 0xffu8],
        BrowserScreenshotFormat::Webp => bytes.len() >= 12 && bytes.take(4) == seq![0x52u8, 0x49u8, 0x46u8, 0x46u8]
            && bytes.subrange(8, 12) == seq![0x57u8, 0x45u8, 0x42u8, 0x50u8],
    }
}

/// The SHA-256 digest of a byte string, as `sha2` computes it.
pub uninterp spec fn sha256(bytes: Seq<u8>) -> Seq<u8>;

/// `Sha256::digest`: the 32-byte SHA-256 digest of the bytes.
#[verifier::external_body]
fn sha256_digest(bytes: &[u8]) -> (r: Vec<u8>)
    ensures
        r@ == sha256(bytes@),
        r@.len() == 32,
{
    Sha256::digest(bytes).to_vec()
}

/// The lowercase hexadecimal digit of a value below 16.
pub open spec fn hex_digit(v: u8) -> char {
    if v < 10 {
        ((v + 48) as u8) as char
    } else {
        ((v + 87) as u8) as char
    }
}

/// Lowercase hexadecimal, two digits per byte, high nibble first (what the
/// `{:x}` format of a digest prints).
pub open spec fn lower_hex(bytes: Seq<u8>) -> Seq<char>
    decreases bytes.len(),
{
    if bytes.len() == 0 {
        Seq::empty()
    } else {
        lower_hex(bytes.drop_last()) + seq![hex_digit(bytes.last() / 16), hex_digit(bytes.last() % 16)]
    }
}

fn hex_digit_exec(v: u8) -> (c: char)
    requires
        v < 16,
    ensures
        c == hex_digit(v),
{
    if v < 10 {
        (v + 48) as char
    } else {
        (v + 87) as char
    }
}

/// The lowercase hexadecimal text of the bytes.
pub fn lower_hex_string(bytes: &[u8]) -> (r: String)
    ensures
        r@ == lower_hex(bytes@),
{
    let mut r = String::new();
    let mut i: usize = 0;
    while i < bytes.len()
        invariant
            i <= bytes@.len(),
            r@ == lower_hex(bytes@.take(i as int)),
        decreases bytes@.len() - i,
    {
        let b = bytes[i];
        assert(bytes@.take(i + 1).drop_last() == bytes@.take(i as int));
        crate::text::push_char(&mut r, hex_digit_exec(b / 16));
        crate::text::push_char(&mut r, hex_digit_exec(b % 16));
        i = i + 1;
    }
    assert(bytes@.take(bytes@.len() as int) == bytes@);
    r
}

/// The announced MIME type, length and digest, and the file's header, all
/// agree with the format and the bytes.
pub open spec fn screenshot_matches(
    format: BrowserScreenshotFormat,
    metadata: BrowserHostBinaryPayload,
    bytes: Seq<u8>,
    digest_hex: Seq<char>,
) -> bool {
    &&& metadata.mime_type@ == format_mime(format)
    &&& metadata.byte_length == bytes.len()
    &&& metadata.sha256@ == digest_hex
    &&& has_format_header(format, bytes)
}

fn format_mime_exec(format: BrowserScreenshotFormat) -> (r: &'static str)
    ensures
        r@ == format_mime(format),
{
    match format {
        BrowserScreenshotFormat::Png => "image/png",
        BrowserScreenshotFormat::Jpeg => "image/jpeg",
        BrowserScreenshotFormat::Webp => "image/webp",
    }
}

fn has_format_header_exec(format: BrowserScreenshotFormat, bytes: &[u8]) -> (r: bool)
    ensures
        r == has_format_header(format, bytes@),
{
    match format {
        BrowserScreenshotFormat::Png => {
            if bytes.len() < 8 {
                return false;
            }
            let r = bytes[0] == 0x89 && bytes[1] == 0x50 && bytes[2] == 0x4e && bytes[3] == 0x47
                && bytes[4] == 0x0d && bytes[5] == 0x0a && bytes[6] == 0x1a && bytes[7] == 0x0a;
            assert(r == (bytes@.take(8) == seq![0x89u8, 0x50u8, 0x4eu8, 0x47u8, 0x0du8, 0x0au8, 0x1au8, 0x0au8])) by {
                if r {
                    assert(bytes@.take(8) =~= seq![0x89u8, 0x50u8, 0x4eu8, 0x47u8, 0x0du8, 0x0au8, 0x1au8, 0x0au8]);
                } else {
                    if bytes@.take(8) == seq![0x89u8, 0x50u8, 0x4eu8, 0x47u8, 0x0du8, 0x0au8, 0x1au8, 0x0au8] {
                        assert(bytes@.take(8)[0] == bytes@[0]);
                        assert(bytes@.take(8)[1] == bytes@[1]);
                        assert(bytes@.take(8)[2] == bytes@[2]);
                        assert(bytes@.take(8)[3] == bytes@[3]);
                        assert(bytes@.take(8)[4] == bytes@[4]);
                        assert(bytes@.take(8)[5] == bytes@[5]);
                        assert(bytes@.take(8)[6] == bytes@[6]);
                        assert(bytes@.take(8)[7] == bytes@[7]);
                    }
                }
            }
            r
        },
        BrowserScreenshotFormat::Jpeg => {
            if bytes.len() < 3 {
                return false;
            }
            let r = bytes[0] == 0xff && bytes[1] == 0xd8 && bytes[2] == 0xff;
            assert(r == (bytes@.take(3) == seq![0xffu8, 0xd8u8, 0xffu8])) by {
                if r {
                    assert(bytes@.take(3) =~= seq![0xffu8, 0xd8u8, 0xffu8]);
                } else if bytes@.take(3) == seq![0xffu8, 0xd8u8, 0xffu8] {
                    assert(bytes@.take(3)[0] == bytes@[0]);
                    assert(bytes@.take(3)[1] == bytes@[1]);
                    assert(bytes@.take(3)[2] == bytes@[2]);
                }
            }
            r
        },
        BrowserScreenshotFormat::Webp => {
            if bytes.len() < 12 {
                return false;
            }
            let riff = bytes[0] == 0x52 && bytes[1] == 0x49 && bytes[2] == 0x46 && bytes[3] == 0x46;
            let webp = bytes[8] == 0x57 && bytes[9] == 0x45 && bytes[10] == 0x42 && bytes[11] == 0x50;
            assert(riff == (bytes@.take(4) == seq![0x52u8, 0x49u8, 0x46u8, 0x46u8])) by {
                if riff {
                    assert(bytes@.take(4) =~= seq![0x52u8, 0x49u8, 0x46u8, 0x46u8]);
                } else if bytes@.take(4) == seq![0x52u8, 0x49u8, 0x46u8, 0x46u8] {
                    assert(bytes@.take(4)[0] == bytes@[0]);
                    assert(bytes@.take(4)[1] == bytes@[1]);
                    assert(bytes@.take(4)[2] == bytes@[2]);
                    assert(bytes@.take(4)[3] == bytes@[3]);
                }
            }
            assert(webp == (bytes@.subrange(8, 12) == seq![0x57u8, 0x45u8, 0x42u8, 0x50u8])) by {
                if webp {
                    assert(bytes@.subrange(8, 12) =~= seq![0x57u8, 0x45u8, 0x42u8, 0x50u8]);
                } else if bytes@.subrange(8, 12) == seq![0x57u8, 0x45u8, 0x42u8, 0x50u8] {
                    assert(bytes@.subrange(8, 12)[0] == bytes@[8]);
                    assert(bytes@.subrange(8, 12)[1] == bytes@[9]);
                    assert(bytes@.subrange(8, 12)[2] == bytes@[10]);
                    assert(bytes@.subrange(8, 12)[3] == bytes@[11]);
                }
            }
            riff && webp
        },
    }
}

/// Checks a screenshot file against what the host announced of it, given
/// the lowercase hexadecimal SHA-256 digest of its bytes.
pub fn screenshot_binary_matches(
    format: BrowserScreenshotFormat,
    metadata: &BrowserHostBinaryPayload,
    bytes: &[u8],
    digest_hex: &str,
) -> (r: Result<(), BrowserToolError>)
    ensures
        r is Ok <==> screenshot_matches(format, *metadata, bytes@, digest_hex@),
        r matches Err(e) ==> e.code@ == "browser_screenshot_format_mismatch"@
            && e.message@ == "截图 MIME、文件头、长度或 SHA-256 校验不一致"@,
{
    let mime = format_mime_exec(format);
    let valid_header = has_format_header_exec(format, bytes);
    if !str_eq(metadata.mime_type.as_str(), mime)
        || metadata.byte_length != bytes.len() as u64
        || !str_eq(metadata.sha256.as_str(), digest_hex)
        || !valid_header
    {
        return Err(BrowserToolError::new(
            "browser_screenshot_format_mismatch",
            "截图 MIME、文件头、长度或 SHA-256 校验不一致",
        ));
    }
    Ok(())
}

/// Checks a screenshot file against what the host announced of it: MIME
/// type, length, SHA-256 digest and the format's file header.
pub fn validate_screenshot_binary(
    format: BrowserScreenshotFormat,
    metadata: &BrowserHostBinaryPayload,
    bytes: &[u8],
) -> (r: Result<(), BrowserToolError>)
    ensures
        r is Ok <==> screenshot_matches(format, *metadata, bytes@, lower_hex(sha256(bytes@))),
        r matches Err(e) ==> e.code@ == "browser_screenshot_format_mismatch"@,
{
    let digest = sha256_digest(bytes);
    let digest_hex = lower_hex_string(digest.as_slice());
    screenshot_binary_matches(format, metadata, bytes, digest_hex.as_str())
}

/// The id that ties browser actions of one run together: the run's own
/// id where it has a non-blank one, else its task's, else the session's
/// current turn, else the session's.
pub open spec fn execution_id(
    explicit: Option<Seq<char>>,
    task_id: Option<Seq<char>>,
    current_turn_id: Option<Seq<char>>,
    session_id: Seq<char>,
) -> Seq<char> {
    match crate::text::non_empty_trimmed(explicit) {
        Some(id) => id,
        None => match task_id {
            Some(t) => "task:"@ + t,
            None => match current_turn_id {
                Some(turn) => turn,
                None => "session:"@ + session_id,
            },
        },
    }
}

/// The browser execution id of a tool call (see [`execution_id`]).
pub fn browser_execution_id(
    explicit: Option<&str>,
    task_id: Option<&str>,
    current_turn_id: Option<&str>,
    session_id: &str,
) -> (r: String)
    ensures
        r@ == execution_id(
            crate::text::opt_str_view(explicit),
            crate::text::opt_str_view(task_id),
            crate::text::opt_str_view(current_turn_id),
            session_id@,
        ),
{
    match crate::text::trimmed_non_empty(explicit) {
        Some(id) => id,
        None => match task_id {
            Some(t) => crate::text::concat("task:", t),
            None => match current_turn_id {
                Some(turn) => str_to_string(turn),
                None => crate::text::concat("session:", session_id),
            },
        },
    }
}

/// The label of a status in a failure payload.
pub open spec fn status_label(status: ExecutionResultStatus) -> Seq<char> {
    match status {
        ExecutionResultStatus::NeedsApproval => "needs_approval"@,
        ExecutionResultStatus::Rejected => "rejected"@,
        ExecutionResultStatus::Cancelled => "cancelled"@,
        ExecutionResultStatus::Succeeded => "succeeded"@,
        ExecutionResultStatus::Failed => "failed"@,
    }
}

fn status_label_exec(status: ExecutionResultStatus) -> (r: &'static str)
    ensures
        r@ == status_label(status),
{
    match status {
        ExecutionResultStatus::NeedsApproval => "needs_approval",
        ExecutionResultStatus::Rejected => "rejected",
        ExecutionResultStatus::Cancelled => "cancelled",
        ExecutionResultStatus::Succeeded => "succeeded",
        ExecutionResultStatus::Failed => "failed",
    }
}

/// The failure payload of a tool call, members in key order.
pub open spec fn failure_document(
    tool: Seq<char>,
    code: Seq<char>,
    message: Seq<char>,
    recoverable: bool,
    requires_user_action: bool,
    details: Option<JsonView>,
    status: ExecutionResultStatus,
) -> JsonView {
    JsonView::Object(
        (match details {
            Some(d) => seq![("details"@, d)],
            None => Seq::empty(),
        }) + seq![
            ("error"@, JsonView::Str(message)),
            ("error_code"@, JsonView::Str(code)),
            ("recoverable"@, JsonView::Bool(recoverable)),
            ("requires_user_action"@, JsonView::Bool(requires_user_action)),
            ("status"@, JsonView::Str(status_label(status))),
            ("tool"@, JsonView::Str(tool)),
        ],
    )
}

fn push_member(entries: &mut Vec<(String, JsonValue)>, key: &str, value: JsonValue)
    ensures
        crate::json::json_entries_view(final(entries)@) == crate::json::json_entries_view(old(entries)@).push((key@, value@)),
{
    let k = str_to_string(key);
    proof {
        crate::json::lemma_entries_view_push(entries@, k, value);
    }
    entries.push((k, value));
}

/// The failure payload document of a tool call.
pub fn failure_payload_value(
    tool: &str,
    code: &str,
    message: &str,
    recoverable: bool,
    requires_user_action: bool,
    details: Option<&JsonValue>,
    status: ExecutionResultStatus,
) -> (r: JsonValue)
    ensures
        r@ == failure_document(
            tool@,
            code@,
            message@,
            recoverable,
            requires_user_action,
            match details { Some(d) => Some(d@), None => None },
            status,
        ),
{
    let mut entries: Vec<(String, JsonValue)> = Vec::new();
    match details {
        Some(d) => push_member(&mut entries, "details", crate::json::copy_json(d)),
        None => {},
    }
    push_member(&mut entries, "error", JsonValue::Str(str_to_string(message)));
    push_member(&mut entries, "error_code", JsonValue::Str(str_to_string(code)));
    push_member(&mut entries, "recoverable", JsonValue::Bool(recoverable));
    push_member(&mut entries, "requires_user_action", JsonValue::Bool(requires_user_action));
    push_member(&mut entries, "status", JsonValue::Str(str_to_string(status_label_exec(status))));
    push_member(&mut entries, "tool", JsonValue::Str(str_to_string(tool)));
    let ghost expected = failure_document(
        tool@,
        code@,
        message@,
        recoverable,
        requires_user_action,
        match details { Some(d) => Some(d@), None => None },
        status,
    );
    assert(crate::json::json_entries_view(entries@) =~= match expected {
        JsonView::Object(m) => m,
        _ => Seq::empty(),
    });
    JsonValue::Object(entries)
}

/// The failure payload of a tool call, as text, with the status it reports.
pub fn failure_payload_with_status(
    tool: &str,
    code: &str,
    message: &str,
    recoverable: bool,
    requires_user_action: bool,
    details: Option<&JsonValue>,
    status: ExecutionResultStatus,
) -> (r: (String, ExecutionResultStatus))
    ensures
        Some(r.0@) == json_text(failure_document(
            tool@,
            code@,
            message@,
            recoverable,
            requires_user_action,
            match details { Some(d) => Some(d@), None => None },
            status,
        )),
        r.1 == status,
{
    let payload = failure_payload_value(tool, code, message, recoverable, requires_user_action, details, status);
    match print_json(&payload) {
        Some(text) => (text, status),
        None => (String::new(), status),
    }
}

/// The failure payload of a tool call that failed.
pub fn failure_payload(
    tool: &str,
    code: &str,
    message: &str,
    recoverable: bool,
    requires_user_action: bool,
    details: Option<&JsonValue>,
) -> (r: (String, ExecutionResultStatus))
    ensures
        Some(r.0@) == json_text(failure_document(
            tool@,
            code@,
            message@,
            recoverable,
            requires_user_action,
            match details { Some(d) => Some(d@), None => None },
            ExecutionResultStatus::Failed,
        )),
        r.1 == ExecutionResultStatus::Failed,
{
    failure_payload_with_status(tool, code, message, recoverable, requires_user_action, details, ExecutionResultStatus::Failed)
}

/// A plain failure payload: not recoverable, no user action, no details.
pub fn failure(tool: &str, code: &str, message: &str) -> (r: (String, ExecutionResultStatus))
    ensures
        Some(r.0@) == json_text(failure_document(tool@, code@, message@, false, false, None, ExecutionResultStatus::Failed)),
        r.1 == ExecutionResultStatus::Failed,
{
    failure_payload(tool, code, message, false, false, None)
}

/// What the payload of an unavailable browser surface details.
pub open spec fn capability_details() -> JsonView {
    JsonView::Object(seq![
        ("available_fallback"@, JsonView::Str("browser_records"@)),
        ("capability"@, JsonView::Str("desktop_browser_surface"@)),
        ("supported_platform"@, JsonView::Str("desktop"@)),
    ])
}

/// The failure payload of a tool whose browser surface is not available
/// here: recoverable, with the fallback named in its details.
pub fn capability_unavailable(tool: &str, message: &str) -> (r: (String, ExecutionResultStatus))
    ensures
        Some(r.0@) == json_text(failure_document(
            tool@,
            "capability_unavailable"@,
            message@,
            true,
            false,
            Some(capability_details()),
            ExecutionResultStatus::Failed,
        )),
        r.1 == ExecutionResultStatus::Failed,
{
    let mut entries: Vec<(String, JsonValue)> = Vec::new();
    push_member(&mut entries, "available_fallback", JsonValue::Str(str_to_string("browser_records")));
    push_member(&mut entries, "capability", JsonValue::Str(str_to_string("desktop_browser_surface")));
    push_member(&mut entries, "supported_platform", JsonValue::Str(str_to_string("desktop")));
    assert(crate::json::json_entries_view(entries@) =~= match capability_details() {
        JsonView::Object(m) => m,
        _ => Seq::empty(),
    });
    let details = JsonValue::Object(entries);
    failure_payload(tool, "capability_unavailable", message, true, false, Some(&details))
}

/// The failure payload that reports a tool error, with the error's status.
pub fn failure_with_error(tool: &str, error: &BrowserToolError) -> (r: (String, ExecutionResultStatus))
    ensures
        Some(r.0@) == json_text(failure_document(
            tool@,
            error.code@,
            error.message@,
            error.recoverable,
            error.requires_user_action,
            match error.details { Some(d) => Some(d@), None => None },
            error.status,
        )),
        r.1 == error.status,
{
    let details = match &error.details {
        Some(d) => Some(d),
        None => None,
    };
    failure_payload_with_status(
        tool,
        error.code.as_str(),
        error.message.as_str(),
        error.recoverable,
        error.requires_user_action,
        details,
        error.status,
    )
}

/// An error that the browser host reports for a command.
#[derive(Debug)]
pub struct BrowserHostCommandError {
    pub code: String,
    pub message: String,
    pub recoverable: bool,
    pub side_effect_started: bool,
    pub diagnostic: Option<JsonValue>,
}

/// The host's code for an action that needs the user.
pub open spec fn is_sensitive_action(code: Seq<char>) -> bool {
    code == "browser_sensitive_action_requires_user"@
}

/// The members that describe a host error.
pub open spec fn host_error_fields(error: BrowserHostCommandError) -> Seq<(Seq<char>, JsonView)> {
    seq![
        ("code"@, JsonView::Str(error.code@)),
        ("diagnostic"@, match error.diagnostic { Some(d) => d@, None => JsonView::Null }),
        ("recoverable"@, JsonView::Bool(error.recoverable)),
        ("side_effect_started"@, JsonView::Bool(error.side_effect_started)),
    ]
}

/// What the tool error of a host error details.
pub open spec fn host_error_details(error: BrowserHostCommandError) -> JsonView {
    JsonView::Object(seq![("host_error"@, JsonView::Object(host_error_fields(error)))])
}

impl BrowserToolError {
    /// The tool error of a host error: an action that needs the user is
    /// recoverable and asks for approval; the message names the context.
    pub fn from_host(context: &str, error: &BrowserHostCommandError) -> (r: Self)
        ensures
            r.code@ == error.code@,
            r.message@ == context@ + ": "@ + error.message@,
            r.recoverable == (error.recoverable || is_sensitive_action(error.code@)),
            r.requires_user_action == is_sensitive_action(error.code@),
            r.details matches Some(d) && d@ == host_error_details(*error),
            r.status == if is_sensitive_action(error.code@) {
                ExecutionResultStatus::NeedsApproval
            } else {
                ExecutionResultStatus::Failed
            },
    {
        let sensitive = str_eq(error.code.as_str(), "browser_sensitive_action_requires_user");
        let mut inner: Vec<(String, JsonValue)> = Vec::new();
        push_member(&mut inner, "code", JsonValue::Str(error.code.clone()));
        let diagnostic = match &error.diagnostic {
            Some(d) => crate::json::copy_json(d),
            None => JsonValue::Null,
        };
        push_member(&mut inner, "diagnostic", diagnostic);
        push_member(&mut inner, "recoverable", JsonValue::Bool(error.recoverable));
        push_member(&mut inner, "side_effect_started", JsonValue::Bool(error.side_effect_started));
        let ghost inner_view = host_error_fields(*error);
        assert(crate::json::json_entries_view(inner@) =~= inner_view);
        let mut outer: Vec<(String, JsonValue)> = Vec::new();
        push_member(&mut outer, "host_error", JsonValue::Object(inner));
        let details = JsonValue::Object(outer);
        assert(details@ == JsonView::Object(seq![("host_error"@, JsonView::Object(inner_view))]));
        assert(crate::json::json_entries_view(outer@) =~= seq![("host_error"@, JsonView::Object(inner_view))]);
        let head = crate::text::concat(context, ": ");
        BrowserToolError {
            code: error.code.clone(),
            message: crate::text::concat(head.as_str(), error.message.as_str()),
            recoverable: error.recoverable || sensitive,
            requires_user_action: sensitive,
            details: Some(details),
            status: if sensitive {
                ExecutionResultStatus::NeedsApproval
            } else {
                ExecutionResultStatus::Failed
            },
        }
    }
}

/// How the browser host answered a command.
#[derive(Debug)]
pub enum BrowserHostCommandOutcome<R> {
    Succeeded(R),
    Failed(BrowserHostCommandError),
    Indeterminate(BrowserHostCommandError),
    Cancelled,
}

/// The result of a command that succeeded; the tool error of one that did
/// not.
pub fn succeeded_result<R>(outcome: BrowserHostCommandOutcome<R>, context: &str) -> (r: Result<R, BrowserToolError>)
    ensures
        match outcome {
            BrowserHostCommandOutcome::Succeeded(v) => r == Ok::<R, BrowserToolError>(v),
            BrowserHostCommandOutcome::Failed(e) | BrowserHostCommandOutcome::Indeterminate(e) => r matches Err(t)
                && t.code@ == e.code@ && t.message@ == context@ + ": "@ + e.message@
                && t.requires_user_action == is_sensitive_action(e.code@),
            BrowserHostCommandOutcome::Cancelled => r matches Err(t) && t.code@ == "browser_command_cancelled"@
                && t.message@ == context@ && t.status == ExecutionResultStatus::Failed,
        },
{
    match outcome {
        BrowserHostCommandOutcome::Succeeded(v) => Ok(v),
        BrowserHostCommandOutcome::Failed(e) => Err(BrowserToolError::from_host(context, &e)),
        BrowserHostCommandOutcome::Indeterminate(e) => Err(BrowserToolError::from_host(context, &e)),
        BrowserHostCommandOutcome::Cancelled => Err(BrowserToolError::new("browser_command_cancelled", context)),
    }
}

/// The ways the connection to the browser host fails.
#[derive(Clone, Copy, Debug, PartialEq, Eq, Structural)]
pub enum BrowserHostClientErrorKind {
    RequestTimeout,
    UnexpectedResponse,
    UnexpectedBinaryPayload,
    BinarySizeMismatch,
    BinaryHashMismatch,
    Json,
    ProtocolIncompatible,
    Disconnected,
    InvalidConfiguration,
    Connect,
    Transport,
    HandshakeTimeout,
    DesktopEpochMismatch,
    DesktopProcessMismatch,
}

/// The tool error code of a host connection failure.
pub open spec fn host_client_error_code(kind: BrowserHostClientErrorKind) -> Seq<char> {
    match kind {
        BrowserHostClientErrorKind::RequestTimeout => "browser_host_request_timeout"@,
        BrowserHostClientErrorKind::UnexpectedResponse
        | BrowserHostClientErrorKind::UnexpectedBinaryPayload
        | BrowserHostClientErrorKind::BinarySizeMismatch
        | BrowserHostClientErrorKind::BinaryHashMismatch
        | BrowserHostClientErrorKind::Json
        | BrowserHostClientErrorKind::ProtocolIncompatible => "browser_host_protocol_error"@,
        BrowserHostClientErrorKind::Disconnected => "browser_host_disconnected"@,
        _ => "browser_host_unavailable"@,
    }
}

/// The tool error of a host connection failure, with the failure's text as
/// its message.
pub fn browser_host_client_error(kind: BrowserHostClientErrorKind, message: String) -> (r: BrowserToolError)
    ensures
        r.code@ == host_client_error_code(kind),
        r.message@ == message@,
        !r.recoverable,
        !r.requires_user_action,
        r.details is None,
        r.status == ExecutionResultStatus::Failed,
{
    let code = match kind {
        BrowserHostClientErrorKind::RequestTimeout => "browser_host_request_timeout",
        BrowserHostClientErrorKind::UnexpectedResponse
        | BrowserHostClientErrorKind::UnexpectedBinaryPayload
        | BrowserHostClientErrorKind::BinarySizeMismatch
        | BrowserHostClientErrorKind::BinaryHashMismatch
        | BrowserHostClientErrorKind::Json
        | BrowserHostClientErrorKind::ProtocolIncompatible => "browser_host_protocol_error",
        BrowserHostClientErrorKind::Disconnected => "browser_host_disconnected",
        _ => "browser_host_unavailable",
    };
    BrowserToolError::with_message(code, message)
}

} // verus!
