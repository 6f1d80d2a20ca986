//! The decisions of the bridge smoke checks: what a model or MCP probe's
//! outcome says about its contract, and how the checks are assembled.

use vstd::prelude::*;
use crate::bridge_dto::{
    copy_opt_error, BridgeCutoverCheckDto, BridgeMcpDefaultRouteContractDto,
    BridgeModelContractDto, BridgeProbeErrorDto, MCP_BLANK_SELECTION_INVOCATION_FAILED_REASON,
    MCP_BLANK_SELECTION_RESPONSE_NOT_OK_REASON, MCP_DEFAULT_ROUTE_FALLBACK_ONLY_REASON,
    MCP_DEFAULT_ROUTE_METADATA_DRIFT_REASON, MCP_DEFAULT_ROUTE_RESOLVED_SERVER_MISMATCH_REASON,
    MCP_DEFAULT_ROUTE_UNAVAILABLE_REASON, MCP_MANAGER_LIST_SERVERS_FAILED_REASON,
};
use crate::json::{entries_get, json_as_str, json_entries_view, json_get, json_get_str, json_items_view, lemma_items_view, opt_json_view, parse_json, parsed_json, JsonValue, JsonView};
use crate::json_access::{as_array, as_object, get, value_as_array, value_as_object, value_as_str};
use crate::redaction::{excerpt, spec_excerpt};
use crate::scan::{find_from, find_from_exec, lemma_find_from_bounds};
use crate::text::{chars_of, concat, copy_opt_string, opt_str_eq, opt_string_view, str_eq, str_to_string, string_from_chars, trim, trim_chars};

verus! {

/// A model provider reached over HTTP directly, outside the bridge.
#[derive(Clone, Debug)]
pub struct DirectHttpModelProbeConfig {
    pub base_url: String,
    pub api_key: Option<String>,
    pub model: String,
}

/// The base URL with the user-info (`user:password@`) after the scheme removed.
pub open spec fn sanitized_url(url: Seq<char>) -> Seq<char> {
    match (find_from(url, "@"@, 0), find_from(url, "://"@, 0)) {
        (Some(at), Some(scheme)) => if at > scheme + 3 {
            url.take((scheme + 3) as int) + url.skip((at + 1) as int)
        } else {
            url
        },
        _ => url,
    }
}

impl DirectHttpModelProbeConfig {
    /// The base URL without embedded credentials.
    pub fn sanitized_base_url(&self) -> (r: String)
        ensures
            r@ == sanitized_url(self.base_url@),
    {
        let url = chars_of(self.base_url.as_str());
        let at_sign = chars_of("@");
        let scheme_sep = chars_of("://");
        proof {
            lemma_find_from_bounds(url@, "@"@, 0);
            lemma_find_from_bounds(url@, "://"@, 0);
            reveal_strlit("://");
            reveal_strlit("@");
        }
        if let Some(at_pos) = find_from_exec(url.as_slice(), at_sign.as_slice(), 0) {
            if let Some(scheme_end) = find_from_exec(url.as_slice(), scheme_sep.as_slice(), 0) {
                assert(scheme_sep@.len() == 3);
                assert(url@.len() == url.len());
                let after_scheme = scheme_end + 3;
                if at_pos > after_scheme {
                    let mut out: Vec<char> = Vec::new();
                    crate::redaction::push_range(&mut out, url.as_slice(), 0, after_scheme);
                    crate::redaction::push_range(&mut out, url.as_slice(), at_pos + 1, url.len());
                    assert(url@.skip((at_pos + 1) as int) == url@.subrange((at_pos + 1) as int, url@.len() as int));
                    return string_from_chars(out.as_slice());
                }
            }
        }
        self.base_url.clone()
    }
}

/// The string member `key` of an object holds text that is not blank.
pub open spec fn has_text(members: Seq<(Seq<char>, JsonView)>, key: Seq<char>) -> bool {
    json_as_str(entries_get(members, key)) matches Some(t) && trim(t).len() > 0
}

/// A tool call names a function and passes its arguments as text.
pub open spec fn tool_call_valid(call: JsonView) -> bool {
    match as_object(Some(call)) {
        Some(c) => match as_object(entries_get(c, "function"@)) {
            Some(f) => has_text(f, "name"@) && has_text(f, "arguments"@),
            None => false,
        },
        None => false,
    }
}

/// The tool calls of a structured payload: its `tool_calls` array, none
/// where it has none.
pub open spec fn payload_tool_calls(members: Seq<(Seq<char>, JsonView)>) -> Seq<JsonView> {
    match as_array(entries_get(members, "tool_calls"@)) {
        Some(items) => items,
        None => Seq::empty(),
    }
}

/// The payload reports token usage.
pub open spec fn has_usage(members: Seq<(Seq<char>, JsonView)>) -> bool {
    entries_get(members, "usage"@) matches Some(u) && u != JsonView::Null
}

/// The model contract of a bridge payload. A blank payload fails it. A
/// payload that parses to a JSON object is a structured payload: it needs
/// content or tool calls, and every tool call must name a function and pass
/// its arguments as text. Any other payload is text, which is content.
pub open spec fn is_model_contract_of(contract: BridgeModelContractDto, payload: Seq<char>, profile: Seq<char>) -> bool {
    &&& contract.contract_profile@ == profile
    &&& if trim(payload).len() == 0 {
        &&& contract.payload_kind@ == "empty"@
        &&& !contract.contract_ok
        &&& !contract.has_content
        &&& !contract.has_finish_reason
        &&& !contract.has_usage
        &&& contract.tool_call_count == 0
        &&& opt_string_view(contract.blocking_reason) == Some("bridge payload was empty"@)
    } else {
        match parsed_json(payload) {
            Some(JsonView::Object(m)) => structured_contract(contract, m),
            _ => {
                &&& contract.payload_kind@ == "text"@
                &&& contract.contract_ok
                &&& contract.has_content
                &&& !contract.has_finish_reason
                &&& !contract.has_usage
                &&& contract.tool_call_count == 0
                &&& contract.blocking_reason is None
            },
        }
    }
}

/// The contract of a structured payload with these members.
pub open spec fn structured_contract(contract: BridgeModelContractDto, m: Seq<(Seq<char>, JsonView)>) -> bool {
    let calls = payload_tool_calls(m);
    let valid = forall|i: int| 0 <= i < calls.len() ==> tool_call_valid(#[trigger] calls[i]);
    &&& contract.payload_kind@ == "structured_json"@
    &&& contract.has_content == has_text(m, "content"@)
    &&& contract.has_finish_reason == has_text(m, "finish_reason"@)
    &&& contract.has_usage == has_usage(m)
    &&& contract.tool_call_count == calls.len()
    &&& contract.contract_ok == ((has_text(m, "content"@) || calls.len() > 0) && valid)
    &&& opt_string_view(contract.blocking_reason) == if !valid {
        Some("structured payload contains invalid tool_calls"@)
    } else if !has_text(m, "content"@) && calls.len() == 0 {
        Some("structured payload missing content or tool_calls"@)
    } else {
        None
    }
}

fn is_blank(value: &str) -> (r: bool)
    ensures
        r == (trim(value@).len() == 0),
{
    let chars = chars_of(value);
    let t = trim_chars(chars.as_slice());
    t.len() == 0
}

fn member_has_text(members: &Vec<(String, JsonValue)>, key: &str) -> (r: bool)
    ensures
        r == has_text(json_entries_view(members@), key@),
{
    match value_as_str(get(members, key)) {
        Some(t) => !is_blank(t),
        None => false,
    }
}

fn is_tool_call_valid(call: &JsonValue) -> (r: bool)
    ensures
        r == tool_call_valid(call@),
{
    match call {
        JsonValue::Object(c) => match value_as_object(get(c, "function")) {
            Some(f) => member_has_text(f, "name") && member_has_text(f, "arguments"),
            None => false,
        },
        _ => false,
    }
}

/// The model contract of a structured payload: one that parses to a JSON
/// object with these members.
pub fn structured_model_contract(m: &Vec<(String, JsonValue)>, contract_profile: String) -> (r: BridgeModelContractDto)
    ensures
        r.contract_profile@ == contract_profile@,
        structured_contract(r, json_entries_view(m@)),
{
    let has_content = member_has_text(m, "content");
    let has_finish_reason = member_has_text(m, "finish_reason");
    let usage = match get(m, "usage") {
        Some(JsonValue::Null) => false,
        Some(_) => true,
        None => false,
    };
    let mut tool_call_count: usize = 0;
    let mut valid = true;
    match value_as_array(get(m, "tool_calls")) {
        Some(calls) => {
            proof {
                lemma_items_view(calls@);
            }
            tool_call_count = calls.len();
            let mut i: usize = 0;
            while i < calls.len()
                invariant
                    i <= calls@.len(),
                    json_items_view(calls@).len() == calls@.len(),
                    forall|k: int| 0 <= k < calls@.len() ==> #[trigger] json_items_view(calls@)[k] == calls@[k]@,
                    valid == forall|k: int| 0 <= k < i ==> tool_call_valid(#[trigger] json_items_view(calls@)[k]),
                decreases calls@.len() - i,
            {
                let ok = is_tool_call_valid(&calls[i]);
                assert(ok == tool_call_valid(json_items_view(calls@)[i as int]));
                valid = valid && ok;
                i = i + 1;
            }
        },
        None => {},
    }
    let contract_ok = (has_content || tool_call_count > 0) && valid;
    let blocking_reason = if !valid {
        Some(str_to_string("structured payload contains invalid tool_calls"))
    } else if !has_content && tool_call_count == 0 {
        Some(str_to_string("structured payload missing content or tool_calls"))
    } else {
        None
    };
    BridgeModelContractDto {
        contract_profile,
        payload_kind: str_to_string("structured_json"),
        contract_ok,
        has_content,
        has_finish_reason,
        has_usage: usage,
        tool_call_count,
        blocking_reason,
    }
}

/// Checks a bridge payload against the model contract.
pub fn evaluate_model_contract(payload: &str, contract_profile: String) -> (r: BridgeModelContractDto)
    ensures
        is_model_contract_of(r, payload@, contract_profile@),
{
    if is_blank(payload) {
        return BridgeModelContractDto {
            contract_profile,
            payload_kind: str_to_string("empty"),
            contract_ok: false,
            has_content: false,
            has_finish_reason: false,
            has_usage: false,
            tool_call_count: 0,
            blocking_reason: Some(str_to_string("bridge payload was empty")),
        };
    }
    let document = parse_json(payload);
    match &document {
        Some(JsonValue::Object(m)) => structured_model_contract(m, contract_profile),
        _ => BridgeModelContractDto {
            contract_profile,
            payload_kind: str_to_string("text"),
            contract_ok: true,
            has_content: true,
            has_finish_reason: false,
            has_usage: false,
            tool_call_count: 0,
            blocking_reason: None,
        },
    }
}

/// `check` is the cutover check of a model invocation with this outcome.
pub open spec fn is_model_check_of(
    check: BridgeCutoverCheckDto,
    check_name: Seq<char>,
    target: Seq<char>,
    profile: Seq<char>,
    result: Result<BridgeReply, BridgeProbeErrorDto>,
) -> bool {
    &&& check.check_name@ == check_name
    &&& check.target@ == target
    &&& check.mcp_contract is None
    &&& match result {
        Ok(response) => {
            &&& check.model_contract is Some
            &&& is_model_contract_of(check.model_contract->0, response.payload@, profile)
            &&& check.ok == (response.ok && check.model_contract->0.contract_ok)
            &&& opt_string_view(check.blocking_reason) == if check.model_contract->0.blocking_reason is Some {
                opt_string_view(check.model_contract->0.blocking_reason)
            } else if !response.ok {
                Some("bridge response was not ok"@)
            } else {
                None
            }
            &&& opt_string_view(check.response_excerpt) == Some(spec_excerpt(response.payload@))
            &&& check.error is None
        },
        Err(error) => {
            &&& !check.ok
            &&& opt_string_view(check.blocking_reason) == Some("bridge invocation failed"@)
            &&& check.response_excerpt is None
            &&& check.error == Some(error)
            &&& check.model_contract is None
        },
    }
}

/// The cutover check of one model invocation.
pub fn bridge_cutover_model_check(
    check_name: String,
    target: String,
    contract_profile: String,
    result: Result<BridgeReply, BridgeProbeErrorDto>,
) -> (r: BridgeCutoverCheckDto)
    ensures
        is_model_check_of(r, check_name@, target@, contract_profile@, result),
{
    match result {
        Ok(response) => {
            let contract = evaluate_model_contract(response.payload.as_str(), contract_profile);
            let mut blocking_reason = crate::text::copy_opt_string(&contract.blocking_reason);
            if blocking_reason.is_none() && !response.ok {
                blocking_reason = Some(str_to_string("bridge response was not ok"));
            }
            BridgeCutoverCheckDto {
                check_name,
                target,
                ok: response.ok && contract.contract_ok,
                blocking_reason,
                response_excerpt: Some(excerpt(response.payload.as_str())),
                error: None,
                model_contract: Some(contract),
                mcp_contract: None,
            }
        },
        Err(error) => BridgeCutoverCheckDto {
            check_name,
            target,
            ok: false,
            blocking_reason: Some(str_to_string("bridge invocation failed")),
            response_excerpt: None,
            error: Some(error),
            model_contract: None,
            mcp_contract: None,
        },
    }
}

/// What the MCP manager reported of its default route.
#[derive(Clone, Debug)]
pub struct McpServerListSummary {
    pub default_route_status: String,
    pub default_route_target: String,
}

/// A reply of a bridge server: whether it reported success, and its raw
/// payload.
#[derive(Clone, Debug)]
pub struct BridgeReply {
    pub ok: bool,
    pub payload: String,
}

/// The check that stands for a failed `list_servers` call.
pub open spec fn is_list_failure_check_of(check: BridgeCutoverCheckDto, error: BridgeProbeErrorDto) -> bool {
    &&& check.check_name@ == "default_route_contract"@
    &&& check.target@ == "loopback-mcp-manager"@
    &&& !check.ok
    &&& opt_string_view(check.blocking_reason) == Some(MCP_MANAGER_LIST_SERVERS_FAILED_REASON@)
    &&& check.response_excerpt is None
    &&& check.error == Some(error)
    &&& check.model_contract is None
    &&& check.mcp_contract is None
}

/// The default-route check when the manager could not list its servers.
pub fn mcp_list_servers_failed_check(error: BridgeProbeErrorDto) -> (r: BridgeCutoverCheckDto)
    ensures
        is_list_failure_check_of(r, error),
{
    BridgeCutoverCheckDto {
        check_name: str_to_string("default_route_contract"),
        target: str_to_string("loopback-mcp-manager"),
        ok: false,
        blocking_reason: Some(str_to_string(MCP_MANAGER_LIST_SERVERS_FAILED_REASON)),
        response_excerpt: None,
        error: Some(error),
        model_contract: None,
        mcp_contract: None,
    }
}

/// Whether a default route with this status has a target to describe.
pub open spec fn route_needs_describe(status: Seq<char>) -> bool {
    status == "ready"@ || status == "fallback-only"@
}

/// Whether the manager is asked to describe the default route's target.
pub fn mcp_route_needs_describe(route_status: &str) -> (r: bool)
    ensures
        r == route_needs_describe(route_status@),
{
    str_eq(route_status, "ready") || str_eq(route_status, "fallback-only")
}

/// A request that the MCP cut-over check sends.
#[derive(Clone, Debug)]
pub enum McpCutoverRequest {
    /// Ask the manager to describe a server.
    DescribeServer { server_name: String },
    /// Call a tool through the MCP bridge.
    CallTool { server_name: String, tool_name: String, input: String },
}

/// The tool call with a blank server selection: `echo.describe` on no
/// named server, with empty input.
pub open spec fn is_blank_selection_call(request: McpCutoverRequest) -> bool {
    request matches McpCutoverRequest::CallTool { server_name, tool_name, input } && server_name@.len() == 0
        && tool_name@ == "echo.describe"@ && input@.len() == 0
}

/// The requests that the MCP cut-over check sends once the manager listed
/// its servers, in order: a description of the default route's target where
/// the route is ready or fallback-only, then the blank-selection call.
pub fn mcp_cutover_requests(list: &McpServerListSummary) -> (r: Vec<McpCutoverRequest>)
    ensures
        route_needs_describe(list.default_route_status@) ==> r@.len() == 2
            && (r@[0] matches McpCutoverRequest::DescribeServer { server_name } && server_name@ == list.default_route_target@)
            && is_blank_selection_call(r@[1]),
        !route_needs_describe(list.default_route_status@) ==> r@.len() == 1 && is_blank_selection_call(r@[0]),
{
    let mut requests: Vec<McpCutoverRequest> = Vec::new();
    if mcp_route_needs_describe(list.default_route_status.as_str()) {
        requests.push(McpCutoverRequest::DescribeServer { server_name: list.default_route_target.clone() });
    }
    let blank = McpCutoverRequest::CallTool {
        server_name: String::new(),
        tool_name: str_to_string("echo.describe"),
        input: String::new(),
    };
    requests.push(blank);
    requests
}

/// The blocking reason that the route status alone gives.
pub open spec fn route_status_blocking_reason(status: Seq<char>) -> Option<Seq<char>> {
    if status == "fallback-only"@ {
        Some(MCP_DEFAULT_ROUTE_FALLBACK_ONLY_REASON@)
    } else if status == "unavailable"@ {
        Some(MCP_DEFAULT_ROUTE_UNAVAILABLE_REASON@)
    } else if status == "ready"@ {
        None
    } else {
        Some("unsupported default route status "@ + status)
    }
}

/// The string member `key` of a document, where there is one.
pub open spec fn document_str_member(document: Option<JsonView>, key: Seq<char>) -> Option<Seq<char>> {
    match document {
        Some(d) => json_as_str(json_get(d, key)),
        None => None,
    }
}

/// The string member `key` of the JSON document a payload parses to.
pub open spec fn payload_str_member(payload: Seq<char>, key: Seq<char>) -> Option<Seq<char>> {
    document_str_member(parsed_json(payload), key)
}

/// The payload repeats the route status and target the manager reported.
pub open spec fn payload_metadata_matches(payload: Seq<char>, status: Seq<char>, target: Seq<char>) -> bool {
    payload_str_member(payload, "default_route_status"@) == Some(status)
        && payload_str_member(payload, "default_route_target"@) == Some(target)
}

pub open spec fn describe_succeeded(describe: Option<Result<(), BridgeProbeErrorDto>>) -> bool {
    describe matches Some(Ok(_))
}

pub open spec fn describe_error(describe: Option<Result<(), BridgeProbeErrorDto>>) -> Option<BridgeProbeErrorDto> {
    match describe {
        Some(Err(e)) => Some(e),
        _ => None,
    }
}

pub open spec fn reply_error(reply: Result<BridgeReply, BridgeProbeErrorDto>) -> Option<BridgeProbeErrorDto> {
    match reply {
        Err(e) => Some(e),
        Ok(_) => None,
    }
}

pub open spec fn reply_ok(reply: Result<BridgeReply, BridgeProbeErrorDto>) -> bool {
    reply matches Ok(r) && r.ok
}

/// The server the blank selection resolved to, as its payload names it.
pub open spec fn reply_resolved_server(reply: Result<BridgeReply, BridgeProbeErrorDto>) -> Option<Seq<char>> {
    match reply {
        Ok(r) => payload_str_member(r.payload@, "server_name"@),
        Err(_) => None,
    }
}

pub open spec fn reply_metadata_matches(
    reply: Result<BridgeReply, BridgeProbeErrorDto>,
    status: Seq<char>,
    target: Seq<char>,
) -> bool {
    reply matches Ok(r) && payload_metadata_matches(r.payload@, status, target)
}

/// The first reason, in order of precedence, that blocks the default route.
pub open spec fn default_route_blocking_reason(
    status: Seq<char>,
    target: Seq<char>,
    describe_ok: bool,
    blank_selection_ok: bool,
    blank_selection_failed: bool,
    metadata_matches: bool,
    route_matches: bool,
) -> Option<Seq<char>> {
    if route_status_blocking_reason(status) is Some {
        route_status_blocking_reason(status)
    } else if !describe_ok {
        Some("default route target "@ + target + " could not be described"@)
    } else if !blank_selection_ok {
        if blank_selection_failed {
            Some(MCP_BLANK_SELECTION_INVOCATION_FAILED_REASON@)
        } else {
            Some(MCP_BLANK_SELECTION_RESPONSE_NOT_OK_REASON@)
        }
    } else if !metadata_matches {
        Some(MCP_DEFAULT_ROUTE_METADATA_DRIFT_REASON@)
    } else if !route_matches {
        Some(MCP_DEFAULT_ROUTE_RESOLVED_SERVER_MISMATCH_REASON@)
    } else {
        None
    }
}

/// `check` is the default-route check for the reported route, the outcome
/// of describing its target (`None` where it was not asked for) and the
/// reply to a tool call with a blank server selection.
pub open spec fn is_default_route_check_of(
    check: BridgeCutoverCheckDto,
    status: Seq<char>,
    target: Seq<char>,
    describe: Option<Result<(), BridgeProbeErrorDto>>,
    reply: Result<BridgeReply, BridgeProbeErrorDto>,
) -> bool {
    let describe_ok = describe_succeeded(describe);
    let blank_ok = reply_ok(reply);
    let resolved = reply_resolved_server(reply);
    let metadata_matches = reply_metadata_matches(reply, status, target);
    let route_matches = resolved == Some(target);
    let reason = default_route_blocking_reason(
        status,
        target,
        describe_ok,
        blank_ok,
        reply is Err,
        metadata_matches,
        route_matches,
    );
    let contract_ok = status == "ready"@ && describe_ok && blank_ok && metadata_matches && route_matches;
    &&& check.check_name@ == "default_route_contract"@
    &&& check.target@ == target
    &&& check.ok == contract_ok
    &&& opt_string_view(check.blocking_reason) == reason
    &&& opt_string_view(check.response_excerpt) == match reply {
        Ok(r) => Some(spec_excerpt(r.payload@)),
        Err(_) => None,
    }
    &&& check.error == if !describe_ok {
        if describe_error(describe) is Some { describe_error(describe) } else { reply_error(reply) }
    } else if !blank_ok {
        reply_error(reply)
    } else {
        None
    }
    &&& check.model_contract is None
    &&& check.mcp_contract matches Some(c) && {
        &&& c.route_status@ == status
        &&& c.route_target@ == target
        &&& opt_string_view(c.resolved_server) == resolved
        &&& c.describe_ok == describe_ok
        &&& c.blank_selection_ok == blank_ok
        &&& c.contract_ok == contract_ok
        &&& opt_string_view(c.blocking_reason) == reason
    }
}

/// The blocking reason the route status alone gives.
fn route_status_reason(status: &str) -> (r: Option<String>)
    ensures
        opt_string_view(r) == route_status_blocking_reason(status@),
{
    if str_eq(status, "fallback-only") {
        Some(str_to_string(MCP_DEFAULT_ROUTE_FALLBACK_ONLY_REASON))
    } else if str_eq(status, "unavailable") {
        Some(str_to_string(MCP_DEFAULT_ROUTE_UNAVAILABLE_REASON))
    } else if str_eq(status, "ready") {
        None
    } else {
        Some(concat("unsupported default route status ", status))
    }
}

/// The string member `key` of the parsed payload.
fn str_member(document: &Option<JsonValue>, key: &str) -> (r: Option<String>)
    ensures
        opt_string_view(r) == match opt_json_view(*document) {
            Some(d) => json_as_str(json_get(d, key@)),
            None => None,
        },
{
    match document {
        Some(d) => match json_get_str(d, key) {
            Some(s) => Some(str_to_string(s)),
            None => None,
        },
        None => None,
    }
}

/// What the reply to the blank tool call says, once parsed: the server it
/// resolved to, and whether it repeats the route status and target that
/// the manager reported.
pub fn blank_selection_reading(document: &Option<JsonValue>, route_status: &str, route_target: &str) -> (r: (
    Option<String>,
    bool,
))
    ensures
        opt_string_view(r.0) == document_str_member(opt_json_view(*document), "server_name"@),
        r.1 == (document_str_member(opt_json_view(*document), "default_route_status"@) == Some(route_status@)
            && document_str_member(opt_json_view(*document), "default_route_target"@) == Some(route_target@)),
{
    let resolved_server = str_member(document, "server_name");
    let status_member = str_member(document, "default_route_status");
    let target_member = str_member(document, "default_route_target");
    let metadata_matches = opt_str_eq(&status_member, route_status) && opt_str_eq(&target_member, route_target);
    (resolved_server, metadata_matches)
}

/// The default-route check from the reported route, the outcome of
/// describing its target (`None` where it was not asked for) and the reply
/// to a tool call with a blank server selection.
pub fn mcp_default_route_check(
    list: McpServerListSummary,
    describe: Option<Result<(), BridgeProbeErrorDto>>,
    reply: Result<BridgeReply, BridgeProbeErrorDto>,
) -> (r: BridgeCutoverCheckDto)
    ensures
        is_default_route_check_of(r, list.default_route_status@, list.default_route_target@, describe, reply),
{
    let route_status = list.default_route_status;
    let route_target = list.default_route_target;
    let describe_ok = match &describe {
        Some(Ok(_)) => true,
        _ => false,
    };
    let describe_err: Option<BridgeProbeErrorDto> = match describe {
        Some(Err(e)) => Some(e),
        _ => None,
    };
    let mut blank_selection_ok = false;
    let mut resolved_server: Option<String> = None;
    let mut response_excerpt: Option<String> = None;
    let mut metadata_matches = false;
    let mut blank_selection_error: Option<BridgeProbeErrorDto> = None;
    match reply {
        Ok(response) => {
            blank_selection_ok = response.ok;
            response_excerpt = Some(excerpt(response.payload.as_str()));
            let document = parse_json(response.payload.as_str());
            let (server, matches) = blank_selection_reading(&document, route_status.as_str(), route_target.as_str());
            resolved_server = server;
            metadata_matches = matches;
        },
        Err(error) => {
            blank_selection_error = Some(error);
        },
    }
    let route_matches = opt_str_eq(&resolved_server, route_target.as_str());
    let mut blocking_reason = route_status_reason(route_status.as_str());
    if blocking_reason.is_none() && !describe_ok {
        let head = concat("default route target ", route_target.as_str());
        blocking_reason = Some(concat(head.as_str(), " could not be described"));
    }
    if blocking_reason.is_none() && !blank_selection_ok {
        blocking_reason = Some(if blank_selection_error.is_some() {
            str_to_string(MCP_BLANK_SELECTION_INVOCATION_FAILED_REASON)
        } else {
            str_to_string(MCP_BLANK_SELECTION_RESPONSE_NOT_OK_REASON)
        });
    }
    if blocking_reason.is_none() && !metadata_matches {
        blocking_reason = Some(str_to_string(MCP_DEFAULT_ROUTE_METADATA_DRIFT_REASON));
    }
    if blocking_reason.is_none() && !route_matches {
        blocking_reason = Some(str_to_string(MCP_DEFAULT_ROUTE_RESOLVED_SERVER_MISMATCH_REASON));
    }
    let error = if !describe_ok {
        if describe_err.is_some() { describe_err } else { blank_selection_error }
    } else if !blank_selection_ok {
        blank_selection_error
    } else {
        None
    };
    let contract_ok = str_eq(route_status.as_str(), "ready")
        && describe_ok
        && blank_selection_ok
        && metadata_matches
        && route_matches;
    let mcp_contract = BridgeMcpDefaultRouteContractDto {
        route_status,
        route_target: route_target.clone(),
        resolved_server,
        describe_ok,
        blank_selection_ok,
        contract_ok,
        blocking_reason: copy_opt_string(&blocking_reason),
    };
    BridgeCutoverCheckDto {
        check_name: str_to_string("default_route_contract"),
        target: route_target,
        ok: contract_ok,
        blocking_reason,
        response_excerpt,
        error,
        model_contract: None,
        mcp_contract: Some(mcp_contract),
    }
}


/// The target that names the direct HTTP provider in its check: its base
/// URL without credentials, and its model.
pub open spec fn direct_http_target(config: DirectHttpModelProbeConfig) -> Seq<char> {
    "direct-http://"@ + sanitized_url(config.base_url@) + "  model="@ + config.model@
}

impl DirectHttpModelProbeConfig {
    /// The target of this provider's check.
    pub fn check_target(&self) -> (r: String)
        ensures
            r@ == direct_http_target(*self),
    {
        let mut r = str_to_string("direct-http://");
        let url = self.sanitized_base_url();
        r.append(url.as_str());
        r.append("  model=");
        r.append(self.model.as_str());
        r
    }

    /// The check of one invocation of the direct HTTP provider.
    pub fn model_check(&self, result: Result<BridgeReply, BridgeProbeErrorDto>) -> (r: BridgeCutoverCheckDto)
        ensures
            is_model_check_of(
                r,
                "direct_http_provider_probe"@,
                direct_http_target(*self),
                "openai-compatible-direct-http-v1"@,
                result,
            ),
    {
        bridge_cutover_model_check(
            str_to_string("direct_http_provider_probe"),
            self.check_target(),
            str_to_string("openai-compatible-direct-http-v1"),
            result,
        )
    }
}

/// A service that a bridge server describes in its catalog.
#[derive(Clone, Debug)]
pub struct BridgeServiceDescriptor {
    pub service_name: String,
    pub capability_profile: Option<String>,
    pub service_health: Option<String>,
}

/// The index of the first service named `name` in the catalog.
pub open spec fn service_index(catalog: Seq<BridgeServiceDescriptor>, name: Seq<char>) -> Option<int>
    decreases catalog.len(),
{
    if catalog.len() == 0 {
        None
    } else if service_index(catalog.drop_last(), name) is Some {
        service_index(catalog.drop_last(), name)
    } else if catalog.last().service_name@ == name {
        Some(catalog.len() - 1)
    } else {
        None
    }
}

pub proof fn lemma_service_index(catalog: Seq<BridgeServiceDescriptor>, name: Seq<char>)
    ensures
        service_index(catalog, name) matches Some(i) ==> 0 <= i < catalog.len()
            && catalog[i].service_name@ == name
            && forall|j: int| 0 <= j < i ==> #[trigger] catalog[j].service_name@ != name,
        service_index(catalog, name) is None ==> forall|j: int| 0 <= j < catalog.len()
            ==> #[trigger] catalog[j].service_name@ != name,
    decreases catalog.len(),
{
    if catalog.len() > 0 {
        lemma_service_index(catalog.drop_last(), name);
        assert forall|j: int| 0 <= j < catalog.len() - 1 implies #[trigger] catalog[j] == catalog.drop_last()[j] by {}
    }
}

/// The first service of the catalog with this name.
pub fn model_service_descriptor<'a>(catalog: &'a Vec<BridgeServiceDescriptor>, service_name: &str) -> (r: Option<&'a BridgeServiceDescriptor>)
    ensures
        match service_index(catalog@, service_name@) {
            Some(i) => r == Some(&catalog@[i]),
            None => r is None,
        },
{
    proof {
        lemma_service_index(catalog@, service_name@);
    }
    let mut i: usize = 0;
    while i < catalog.len()
        invariant
            i <= catalog@.len(),
            forall|j: int| 0 <= j < i ==> #[trigger] catalog@[j].service_name@ != service_name@,
        decreases catalog@.len() - i,
    {
        if str_eq(catalog[i].service_name.as_str(), service_name) {
            proof {
                lemma_service_index(catalog@, service_name@);
            }
            return Some(&catalog[i]);
        }
        i = i + 1;
    }
    None
}

/// The capability profile the catalog gives the named service.
pub open spec fn catalog_profile(catalog: Option<Vec<BridgeServiceDescriptor>>, name: Seq<char>) -> Option<Seq<char>> {
    match catalog {
        Some(c) => match service_index(c@, name) {
            Some(i) => opt_string_view(c@[i].capability_profile),
            None => None,
        },
        None => None,
    }
}

/// The capability profile the catalog, where there is one, gives the named
/// service.
pub fn model_capability_profile(catalog: &Option<Vec<BridgeServiceDescriptor>>, service_name: &str) -> (r: Option<String>)
    ensures
        opt_string_view(r) == catalog_profile(*catalog, service_name@),
{
    match catalog {
        Some(c) => match model_service_descriptor(c, service_name) {
            Some(d) => copy_opt_string(&d.capability_profile),
            None => None,
        },
        None => None,
    }
}

/// The contract profile the loopback provider is checked against.
pub open spec fn loopback_profile(catalog: Option<Vec<BridgeServiceDescriptor>>, loopback_provider: Seq<char>) -> Seq<char> {
    match catalog_profile(catalog, loopback_provider) {
        Some(p) => p,
        None => "model-bridge-payload-v1"@,
    }
}

/// The contract profile of the loopback provider: its catalog profile, else
/// the bridge payload profile.
pub fn loopback_model_profile(catalog: &Option<Vec<BridgeServiceDescriptor>>, loopback_provider: &str) -> (r: String)
    ensures
        r@ == loopback_profile(*catalog, loopback_provider@),
{
    match model_capability_profile(catalog, loopback_provider) {
        Some(p) => p,
        None => str_to_string("model-bridge-payload-v1"),
    }
}

/// Whether the catalog has an OpenAI-compatible service to check, and with
/// which contract profile.
pub open spec fn openai_profile(catalog: Option<Vec<BridgeServiceDescriptor>>) -> Option<Seq<char>> {
    match catalog {
        Some(c) => match service_index(c@, "openai-compatible"@) {
            Some(i) => Some(match opt_string_view(c@[i].capability_profile) {
                Some(p) => p,
                None => "openai-compatible-chat-completions-v1"@,
            }),
            None => None,
        },
        None => None,
    }
}

/// The contract profile of the OpenAI-compatible service, where the catalog
/// lists one: its own profile, else the chat-completions profile.
pub fn openai_model_profile(catalog: &Option<Vec<BridgeServiceDescriptor>>) -> (r: Option<String>)
    ensures
        opt_string_view(r) == openai_profile(*catalog),
{
    match catalog {
        Some(c) => match model_service_descriptor(c, "openai-compatible") {
            Some(d) => Some(match &d.capability_profile {
                Some(p) => p.clone(),
                None => str_to_string("openai-compatible-chat-completions-v1"),
            }),
            None => None,
        },
        None => None,
    }
}

/// The model cutover checks: the loopback provider's invocation, then the
/// OpenAI-compatible service's where the catalog lists one.
pub fn model_cutover_checks(
    loopback_provider: String,
    loopback_profile: String,
    loopback_result: Result<BridgeReply, BridgeProbeErrorDto>,
    openai: Option<(String, Result<BridgeReply, BridgeProbeErrorDto>)>,
) -> (r: Vec<BridgeCutoverCheckDto>)
    ensures
        r@.len() == if openai is Some { 2int } else { 1int },
        is_model_check_of(r@[0], "invoke_contract"@, loopback_provider@, loopback_profile@, loopback_result),
        openai matches Some((profile, result)) ==> is_model_check_of(
            r@[1],
            "invoke_contract"@,
            "openai-compatible"@,
            profile@,
            result,
        ),
{
    let mut checks: Vec<BridgeCutoverCheckDto> = Vec::new();
    checks.push(bridge_cutover_model_check(
        str_to_string("invoke_contract"),
        loopback_provider,
        loopback_profile,
        loopback_result,
    ));
    if let Some((profile, result)) = openai {
        checks.push(bridge_cutover_model_check(
            str_to_string("invoke_contract"),
            str_to_string("openai-compatible"),
            profile,
            result,
        ));
    }
    checks
}

} // verus!
