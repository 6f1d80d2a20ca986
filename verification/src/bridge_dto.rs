//! Bridge diagnostics: the contract and check records, the classification
//! of a failed cutover check into a blocking issue, and the service and
//! snapshot summaries built from the checks.

use vstd::prelude::*;
use crate::text::{copy_opt_string, opt_str_eq, opt_string_view, str_eq, str_to_string};

verus! {

/// The kind of bridge server a check ran against.
#[derive(Clone, Copy, Debug, PartialEq, Eq, Structural)]
pub enum BridgeServerKind {
    Model,
    Host,
    Mcp,
}

/// An error reported by a bridge probe.
#[derive(Clone, Debug, PartialEq, Eq)]
pub struct BridgeProbeErrorDto {
    /// The layer that raised the error, by the name the bridge client gives it.
    pub layer: Option<String>,
    pub code: Option<i64>,
    pub message: String,
}

/// What a model invocation's payload satisfied of the model contract.
#[derive(Clone, Debug, PartialEq, Eq)]
pub struct BridgeModelContractDto {
    pub contract_profile: String,
    pub payload_kind: String,
    pub contract_ok: bool,
    pub has_content: bool,
    pub has_finish_reason: bool,
    pub has_usage: bool,
    pub tool_call_count: usize,
    pub blocking_reason: Option<String>,
}

/// What the MCP default route satisfied of its contract.
#[derive(Clone, Debug, PartialEq, Eq)]
pub struct BridgeMcpDefaultRouteContractDto {
    pub route_status: String,
    pub route_target: String,
    pub resolved_server: Option<String>,
    pub describe_ok: bool,
    pub blank_selection_ok: bool,
    pub contract_ok: bool,
    pub blocking_reason: Option<String>,
}

/// One cutover check and its outcome.
#[derive(Clone, Debug, PartialEq, Eq)]
pub struct BridgeCutoverCheckDto {
    pub check_name: String,
    pub target: String,
    pub ok: bool,
    pub blocking_reason: Option<String>,
    pub response_excerpt: Option<String>,
    pub error: Option<BridgeProbeErrorDto>,
    pub model_contract: Option<BridgeModelContractDto>,
    pub mcp_contract: Option<BridgeMcpDefaultRouteContractDto>,
}

/// Which facet of the bridge a blocking issue concerns.
#[derive(Clone, Copy, Debug, PartialEq, Eq, Structural)]
pub enum BridgeCutoverBlockingFacet {
    BridgeResponse,
    ModelContract,
    McpDefaultRoute,
}

/// Why a cutover check blocks.
#[derive(Clone, Copy, Debug, PartialEq, Eq, Structural)]
pub enum BridgeCutoverBlockingReasonCode {
    BridgeInvocationFailed,
    BridgeResponseNotOk,
    BridgeResponseEmptyPayload,
    ModelProviderUnavailable,
    ModelProviderMisconfigured,
    ModelProviderTransportFailed,
    ModelProviderRejected,
    ModelProviderInvalidResponse,
    ModelPayloadEmpty,
    ModelStructuredPayloadInvalidToolCalls,
    ModelStructuredPayloadMissingContentOrToolCalls,
    McpListServersFailed,
    McpDefaultRouteStatusFallbackOnly,
    McpDefaultRouteStatusUnavailable,
    McpDefaultRouteStatusUnsupported,
    McpDefaultRouteTargetDescribeFailed,
    McpBlankSelectionInvocationFailed,
    McpBlankSelectionResponseNotOk,
    McpDefaultRouteMetadataDrift,
    McpDefaultRouteResolvedServerMismatch,
    ModelProviderDirectHttpOk,
}

/// A failed check, classified.
#[derive(Clone, Debug, PartialEq, Eq)]
pub struct BridgeCutoverBlockingIssueDto {
    pub server_kind: BridgeServerKind,
    pub check_name: String,
    pub target: String,
    pub facet: BridgeCutoverBlockingFacet,
    pub reason_code: BridgeCutoverBlockingReasonCode,
    pub blocking_reason: String,
    pub response_excerpt: Option<String>,
    pub error: Option<BridgeProbeErrorDto>,
    pub model_contract: Option<BridgeModelContractDto>,
    pub mcp_contract: Option<BridgeMcpDefaultRouteContractDto>,
}

pub const MCP_MANAGER_LIST_SERVERS_FAILED_REASON: &'static str = "mcp manager list_servers failed";
pub const MCP_DEFAULT_ROUTE_FALLBACK_ONLY_REASON: &'static str = "default route is fallback-only";
pub const MCP_DEFAULT_ROUTE_UNAVAILABLE_REASON: &'static str = "default route is unavailable";
pub const MCP_BLANK_SELECTION_INVOCATION_FAILED_REASON: &'static str = "blank selection invocation failed";
pub const MCP_BLANK_SELECTION_RESPONSE_NOT_OK_REASON: &'static str = "blank selection response was not ok";
pub const MCP_DEFAULT_ROUTE_METADATA_DRIFT_REASON: &'static str =
    "blank selection payload drifted from manager metadata";
pub const MCP_DEFAULT_ROUTE_RESOLVED_SERVER_MISMATCH_REASON: &'static str =
    "blank selection resolved to the wrong MCP server";

/// The snake-case name of a reason code.
pub open spec fn reason_code_name(code: BridgeCutoverBlockingReasonCode) -> Seq<char> {
    match code {
        BridgeCutoverBlockingReasonCode::BridgeInvocationFailed => "bridge_invocation_failed"@,
        BridgeCutoverBlockingReasonCode::BridgeResponseNotOk => "bridge_response_not_ok"@,
        BridgeCutoverBlockingReasonCode::BridgeResponseEmptyPayload => "bridge_response_empty_payload"@,
        BridgeCutoverBlockingReasonCode::ModelProviderUnavailable => "model_provider_unavailable"@,
        BridgeCutoverBlockingReasonCode::ModelProviderMisconfigured => "model_provider_misconfigured"@,
        BridgeCutoverBlockingReasonCode::ModelProviderTransportFailed => "model_provider_transport_failed"@,
        BridgeCutoverBlockingReasonCode::ModelProviderRejected => "model_provider_rejected"@,
        BridgeCutoverBlockingReasonCode::ModelProviderInvalidResponse => "model_provider_invalid_response"@,
        BridgeCutoverBlockingReasonCode::ModelPayloadEmpty => "model_payload_empty"@,
        BridgeCutoverBlockingReasonCode::ModelStructuredPayloadInvalidToolCalls => "model_structured_payload_invalid_tool_calls"@,
        BridgeCutoverBlockingReasonCode::ModelStructuredPayloadMissingContentOrToolCalls => "model_structured_payload_missing_content_or_tool_calls"@,
        BridgeCutoverBlockingReasonCode::McpListServersFailed => "mcp_manager_list_servers_failed"@,
        BridgeCutoverBlockingReasonCode::McpDefaultRouteStatusFallbackOnly => "mcp_default_route_status_fallback_only"@,
        BridgeCutoverBlockingReasonCode::McpDefaultRouteStatusUnavailable => "mcp_default_route_status_unavailable"@,
        BridgeCutoverBlockingReasonCode::McpDefaultRouteStatusUnsupported => "mcp_default_route_status_unsupported"@,
        BridgeCutoverBlockingReasonCode::McpDefaultRouteTargetDescribeFailed => "mcp_default_route_target_describe_failed"@,
        BridgeCutoverBlockingReasonCode::McpBlankSelectionInvocationFailed => "mcp_blank_selection_invocation_failed"@,
        BridgeCutoverBlockingReasonCode::McpBlankSelectionResponseNotOk => "mcp_blank_selection_response_not_ok"@,
        BridgeCutoverBlockingReasonCode::McpDefaultRouteMetadataDrift => "mcp_default_route_metadata_drift"@,
        BridgeCutoverBlockingReasonCode::McpDefaultRouteResolvedServerMismatch => "mcp_default_route_resolved_server_mismatch"@,
        BridgeCutoverBlockingReasonCode::ModelProviderDirectHttpOk => "model_provider_direct_http_ok"@,
    }
}

/// The blocking reason reported for a code when the check gives none.
pub open spec fn default_reason_text(code: BridgeCutoverBlockingReasonCode) -> Seq<char> {
    match code {
        BridgeCutoverBlockingReasonCode::BridgeInvocationFailed => "bridge invocation failed"@,
        BridgeCutoverBlockingReasonCode::BridgeResponseNotOk => "bridge response was not ok"@,
        BridgeCutoverBlockingReasonCode::BridgeResponseEmptyPayload => "bridge response payload was empty"@,
        BridgeCutoverBlockingReasonCode::ModelProviderUnavailable => "provider unavailable"@,
        BridgeCutoverBlockingReasonCode::ModelProviderMisconfigured => "provider misconfigured"@,
        BridgeCutoverBlockingReasonCode::ModelProviderTransportFailed => "provider transport failed"@,
        BridgeCutoverBlockingReasonCode::ModelProviderRejected => "provider rejected request"@,
        BridgeCutoverBlockingReasonCode::ModelProviderInvalidResponse => "provider response invalid"@,
        BridgeCutoverBlockingReasonCode::ModelPayloadEmpty => "bridge payload was empty"@,
        BridgeCutoverBlockingReasonCode::ModelStructuredPayloadInvalidToolCalls => "structured payload contains invalid tool_calls"@,
        BridgeCutoverBlockingReasonCode::ModelStructuredPayloadMissingContentOrToolCalls => "structured payload missing content or tool_calls"@,
        BridgeCutoverBlockingReasonCode::McpListServersFailed => MCP_MANAGER_LIST_SERVERS_FAILED_REASON@,
        BridgeCutoverBlockingReasonCode::McpDefaultRouteStatusFallbackOnly => MCP_DEFAULT_ROUTE_FALLBACK_ONLY_REASON@,
        BridgeCutoverBlockingReasonCode::McpDefaultRouteStatusUnavailable => MCP_DEFAULT_ROUTE_UNAVAILABLE_REASON@,
        BridgeCutoverBlockingReasonCode::McpDefaultRouteStatusUnsupported => "default route status is unsupported"@,
        BridgeCutoverBlockingReasonCode::McpDefaultRouteTargetDescribeFailed => "default route target could not be described"@,
        BridgeCutoverBlockingReasonCode::McpBlankSelectionInvocationFailed => MCP_BLANK_SELECTION_INVOCATION_FAILED_REASON@,
        BridgeCutoverBlockingReasonCode::McpBlankSelectionResponseNotOk => MCP_BLANK_SELECTION_RESPONSE_NOT_OK_REASON@,
        BridgeCutoverBlockingReasonCode::McpDefaultRouteMetadataDrift => MCP_DEFAULT_ROUTE_METADATA_DRIFT_REASON@,
        BridgeCutoverBlockingReasonCode::McpDefaultRouteResolvedServerMismatch => MCP_DEFAULT_ROUTE_RESOLVED_SERVER_MISMATCH_REASON@,
        BridgeCutoverBlockingReasonCode::ModelProviderDirectHttpOk => "direct HTTP provider probe succeeded"@,
    }
}


/// A few marks of a name that tell the codes' names apart.
pub open spec fn name_marks(t: Seq<char>) -> (nat, char, char) {
    (t.len(), t[0], t[t.len() - 8])
}

/// A few marks of a reason that tell the codes' default reasons apart.
pub open spec fn reason_marks(t: Seq<char>) -> (nat, char) {
    (t.len(), t[13])
}

/// Each code has its own name and its own default reason, and no default
/// reason is empty.
pub proof fn lemma_reason_codes_distinct(a: BridgeCutoverBlockingReasonCode, b: BridgeCutoverBlockingReasonCode)
    ensures
        default_reason_text(a).len() > 0,
        a != b ==> reason_code_name(a) != reason_code_name(b),
        a != b ==> default_reason_text(a) != default_reason_text(b),
{
    reveal_strlit("bridge_invocation_failed");
    reveal_strlit("bridge_response_not_ok");
    reveal_strlit("bridge_response_empty_payload");
    reveal_strlit("model_provider_unavailable");
    reveal_strlit("model_provider_misconfigured");
    reveal_strlit("model_provider_transport_failed");
    reveal_strlit("model_provider_rejected");
    reveal_strlit("model_provider_invalid_response");
    reveal_strlit("model_payload_empty");
    reveal_strlit("model_structured_payload_invalid_tool_calls");
    reveal_strlit("model_structured_payload_missing_content_or_tool_calls");
    reveal_strlit("mcp_manager_list_servers_failed");
    reveal_strlit("mcp_default_route_status_fallback_only");
    reveal_strlit("mcp_default_route_status_unavailable");
    reveal_strlit("mcp_default_route_status_unsupported");
    reveal_strlit("mcp_default_route_target_describe_failed");
    reveal_strlit("mcp_blank_selection_invocation_failed");
    reveal_strlit("mcp_blank_selection_response_not_ok");
    reveal_strlit("mcp_default_route_metadata_drift");
    reveal_strlit("mcp_default_route_resolved_server_mismatch");
    reveal_strlit("model_provider_direct_http_ok");
    reveal_strlit("bridge invocation failed");
    reveal_strlit("bridge response was not ok");
    reveal_strlit("bridge response payload was empty");
    reveal_strlit("provider unavailable");
    reveal_strlit("provider misconfigured");
    reveal_strlit("provider transport failed");
    reveal_strlit("provider rejected request");
    reveal_strlit("provider response invalid");
    reveal_strlit("bridge payload was empty");
    reveal_strlit("structured payload contains invalid tool_calls");
    reveal_strlit("structured payload missing content or tool_calls");
    reveal_strlit("default route status is unsupported");
    reveal_strlit("default route target could not be described");
    reveal_strlit("direct HTTP provider probe succeeded");
    reveal_strlit("mcp manager list_servers failed");
    reveal_strlit("default route is fallback-only");
    reveal_strlit("default route is unavailable");
    reveal_strlit("blank selection invocation failed");
    reveal_strlit("blank selection response was not ok");
    reveal_strlit("blank selection payload drifted from manager metadata");
    reveal_strlit("blank selection resolved to the wrong MCP server");
    assert(a != b ==> name_marks(reason_code_name(a)) != name_marks(reason_code_name(b)));
    assert(a != b ==> reason_marks(default_reason_text(a)) != reason_marks(default_reason_text(b)));
}

impl BridgeCutoverBlockingReasonCode {
    /// The snake-case name of the code.
    pub fn as_str(self) -> (s: &'static str)
        ensures
            s@ == reason_code_name(self),
    {
        match self {
            Self::BridgeInvocationFailed => "bridge_invocation_failed",
            Self::BridgeResponseNotOk => "bridge_response_not_ok",
            Self::BridgeResponseEmptyPayload => "bridge_response_empty_payload",
            Self::ModelProviderUnavailable => "model_provider_unavailable",
            Self::ModelProviderMisconfigured => "model_provider_misconfigured",
            Self::ModelProviderTransportFailed => "model_provider_transport_failed",
            Self::ModelProviderRejected => "model_provider_rejected",
            Self::ModelProviderInvalidResponse => "model_provider_invalid_response",
            Self::ModelPayloadEmpty => "model_payload_empty",
            Self::ModelStructuredPayloadInvalidToolCalls => "model_structured_payload_invalid_tool_calls",
            Self::ModelStructuredPayloadMissingContentOrToolCalls => "model_structured_payload_missing_content_or_tool_calls",
            Self::McpListServersFailed => "mcp_manager_list_servers_failed",
            Self::McpDefaultRouteStatusFallbackOnly => "mcp_default_route_status_fallback_only",
            Self::McpDefaultRouteStatusUnavailable => "mcp_default_route_status_unavailable",
            Self::McpDefaultRouteStatusUnsupported => "mcp_default_route_status_unsupported",
            Self::McpDefaultRouteTargetDescribeFailed => "mcp_default_route_target_describe_failed",
            Self::McpBlankSelectionInvocationFailed => "mcp_blank_selection_invocation_failed",
            Self::McpBlankSelectionResponseNotOk => "mcp_blank_selection_response_not_ok",
            Self::McpDefaultRouteMetadataDrift => "mcp_default_route_metadata_drift",
            Self::McpDefaultRouteResolvedServerMismatch => "mcp_default_route_resolved_server_mismatch",
            Self::ModelProviderDirectHttpOk => "model_provider_direct_http_ok",
        }
    }

    /// The blocking reason used when a failed check states none.
    pub fn default_blocking_reason(self) -> (s: &'static str)
        ensures
            s@ == default_reason_text(self),
    {
        match self {
            Self::BridgeInvocationFailed => "bridge invocation failed",
            Self::BridgeResponseNotOk => "bridge response was not ok",
            Self::BridgeResponseEmptyPayload => "bridge response payload was empty",
            Self::ModelProviderUnavailable => "provider unavailable",
            Self::ModelProviderMisconfigured => "provider misconfigured",
            Self::ModelProviderTransportFailed => "provider transport failed",
            Self::ModelProviderRejected => "provider rejected request",
            Self::ModelProviderInvalidResponse => "provider response invalid",
            Self::ModelPayloadEmpty => "bridge payload was empty",
            Self::ModelStructuredPayloadInvalidToolCalls => "structured payload contains invalid tool_calls",
            Self::ModelStructuredPayloadMissingContentOrToolCalls => "structured payload missing content or tool_calls",
            Self::McpListServersFailed => MCP_MANAGER_LIST_SERVERS_FAILED_REASON,
            Self::McpDefaultRouteStatusFallbackOnly => MCP_DEFAULT_ROUTE_FALLBACK_ONLY_REASON,
            Self::McpDefaultRouteStatusUnavailable => MCP_DEFAULT_ROUTE_UNAVAILABLE_REASON,
            Self::McpDefaultRouteStatusUnsupported => "default route status is unsupported",
            Self::McpDefaultRouteTargetDescribeFailed => "default route target could not be described",
            Self::McpBlankSelectionInvocationFailed => MCP_BLANK_SELECTION_INVOCATION_FAILED_REASON,
            Self::McpBlankSelectionResponseNotOk => MCP_BLANK_SELECTION_RESPONSE_NOT_OK_REASON,
            Self::McpDefaultRouteMetadataDrift => MCP_DEFAULT_ROUTE_METADATA_DRIFT_REASON,
            Self::McpDefaultRouteResolvedServerMismatch => MCP_DEFAULT_ROUTE_RESOLVED_SERVER_MISMATCH_REASON,
            Self::ModelProviderDirectHttpOk => "direct HTTP provider probe succeeded",
        }
    }
}


/// The check's blocking reason is exactly `text`.
pub open spec fn reason_is(reason: Option<String>, text: Seq<char>) -> bool {
    opt_string_view(reason) == Some(text)
}

/// The provider failure that a JSON-RPC error code of the model bridge names.
pub open spec fn spec_model_provider_reason_code(code: Option<i64>) -> Option<BridgeCutoverBlockingReasonCode> {
    match code {
        Some(c) => if c == -32003 {
            Some(BridgeCutoverBlockingReasonCode::ModelProviderUnavailable)
        } else if c == -32004 {
            Some(BridgeCutoverBlockingReasonCode::ModelProviderMisconfigured)
        } else if c == -32005 {
            Some(BridgeCutoverBlockingReasonCode::ModelProviderTransportFailed)
        } else if c == -32006 {
            Some(BridgeCutoverBlockingReasonCode::ModelProviderRejected)
        } else if c == -32007 {
            Some(BridgeCutoverBlockingReasonCode::ModelProviderInvalidResponse)
        } else {
            None
        },
        None => None,
    }
}

pub open spec fn error_code(error: Option<BridgeProbeErrorDto>) -> Option<i64> {
    match error {
        Some(e) => e.code,
        None => None,
    }
}

/// The reason code of a failed plain bridge response.
pub open spec fn spec_bridge_response_reason_code(check: BridgeCutoverCheckDto) -> BridgeCutoverBlockingReasonCode {
    if check.error is Some {
        BridgeCutoverBlockingReasonCode::BridgeInvocationFailed
    } else if reason_is(check.blocking_reason, "bridge response payload was empty"@) || reason_is(
        check.blocking_reason,
        "bridge payload was empty"@,
    ) {
        BridgeCutoverBlockingReasonCode::BridgeResponseEmptyPayload
    } else {
        BridgeCutoverBlockingReasonCode::BridgeResponseNotOk
    }
}

/// The reason code of a failed model check.
pub open spec fn spec_model_reason_code(
    check: BridgeCutoverCheckDto,
    contract: Option<BridgeModelContractDto>,
) -> BridgeCutoverBlockingReasonCode {
    let provider = spec_model_provider_reason_code(error_code(check.error));
    if provider is Some {
        provider->0
    } else if contract is Some && !contract->0.contract_ok {
        let c = contract->0;
        if reason_is(c.blocking_reason, "bridge payload was empty"@) {
            BridgeCutoverBlockingReasonCode::ModelPayloadEmpty
        } else if reason_is(c.blocking_reason, "structured payload contains invalid tool_calls"@) {
            BridgeCutoverBlockingReasonCode::ModelStructuredPayloadInvalidToolCalls
        } else if reason_is(c.blocking_reason, "structured payload missing content or tool_calls"@) {
            BridgeCutoverBlockingReasonCode::ModelStructuredPayloadMissingContentOrToolCalls
        } else {
            BridgeCutoverBlockingReasonCode::BridgeResponseNotOk
        }
    } else {
        spec_bridge_response_reason_code(check)
    }
}

/// The blank-selection failure on a ready default route, if any.
pub open spec fn spec_ready_mcp_blank_selection_reason_code(
    blocking_reason: Option<Seq<char>>,
    has_error: bool,
    blank_selection_ok: bool,
) -> Option<BridgeCutoverBlockingReasonCode> {
    if blocking_reason == Some(MCP_BLANK_SELECTION_INVOCATION_FAILED_REASON@) {
        Some(BridgeCutoverBlockingReasonCode::McpBlankSelectionInvocationFailed)
    } else if blocking_reason == Some(MCP_BLANK_SELECTION_RESPONSE_NOT_OK_REASON@) {
        Some(BridgeCutoverBlockingReasonCode::McpBlankSelectionResponseNotOk)
    } else if blocking_reason == Some(MCP_DEFAULT_ROUTE_METADATA_DRIFT_REASON@) {
        Some(BridgeCutoverBlockingReasonCode::McpDefaultRouteMetadataDrift)
    } else if blocking_reason == Some(MCP_DEFAULT_ROUTE_RESOLVED_SERVER_MISMATCH_REASON@) {
        Some(BridgeCutoverBlockingReasonCode::McpDefaultRouteResolvedServerMismatch)
    } else if !blank_selection_ok && has_error {
        Some(BridgeCutoverBlockingReasonCode::McpBlankSelectionInvocationFailed)
    } else if !blank_selection_ok {
        Some(BridgeCutoverBlockingReasonCode::McpBlankSelectionResponseNotOk)
    } else {
        None
    }
}

/// The reason code of a failed MCP default-route check.
pub open spec fn spec_mcp_reason_code(
    check: BridgeCutoverCheckDto,
    contract: BridgeMcpDefaultRouteContractDto,
) -> BridgeCutoverBlockingReasonCode {
    if reason_is(check.blocking_reason, MCP_MANAGER_LIST_SERVERS_FAILED_REASON@) {
        BridgeCutoverBlockingReasonCode::McpListServersFailed
    } else if contract.route_status@ == "fallback-only"@ {
        BridgeCutoverBlockingReasonCode::McpDefaultRouteStatusFallbackOnly
    } else if contract.route_status@ == "unavailable"@ {
        BridgeCutoverBlockingReasonCode::McpDefaultRouteStatusUnavailable
    } else if contract.route_status@ == "ready"@ {
        let blank = spec_ready_mcp_blank_selection_reason_code(
            opt_string_view(contract.blocking_reason),
            check.error is Some,
            contract.blank_selection_ok,
        );
        if !contract.describe_ok {
            BridgeCutoverBlockingReasonCode::McpDefaultRouteTargetDescribeFailed
        } else if blank is Some {
            blank->0
        } else if !contract.contract_ok && opt_string_view(contract.resolved_server) != Some(
            contract.route_target@,
        ) {
            BridgeCutoverBlockingReasonCode::McpDefaultRouteResolvedServerMismatch
        } else if !contract.contract_ok {
            BridgeCutoverBlockingReasonCode::McpDefaultRouteMetadataDrift
        } else {
            BridgeCutoverBlockingReasonCode::McpBlankSelectionResponseNotOk
        }
    } else {
        BridgeCutoverBlockingReasonCode::McpDefaultRouteStatusUnsupported
    }
}

/// The facet and reason code of a failed check.
pub open spec fn spec_blocking_classification(
    check: BridgeCutoverCheckDto,
    server_kind: BridgeServerKind,
) -> (BridgeCutoverBlockingFacet, BridgeCutoverBlockingReasonCode) {
    if reason_is(check.blocking_reason, MCP_MANAGER_LIST_SERVERS_FAILED_REASON@) {
        (
            BridgeCutoverBlockingFacet::McpDefaultRoute,
            BridgeCutoverBlockingReasonCode::McpListServersFailed,
        )
    } else if check.mcp_contract is Some {
        (BridgeCutoverBlockingFacet::McpDefaultRoute, spec_mcp_reason_code(check, check.mcp_contract->0))
    } else if check.model_contract is Some {
        (BridgeCutoverBlockingFacet::ModelContract, spec_model_reason_code(check, check.model_contract))
    } else if server_kind == BridgeServerKind::Model {
        (BridgeCutoverBlockingFacet::BridgeResponse, spec_model_reason_code(check, None))
    } else {
        (BridgeCutoverBlockingFacet::BridgeResponse, spec_bridge_response_reason_code(check))
    }
}

/// `issue` is the blocking issue that the failed `check` of a `server_kind`
/// service raises.
pub open spec fn is_issue_of(
    issue: BridgeCutoverBlockingIssueDto,
    check: BridgeCutoverCheckDto,
    server_kind: BridgeServerKind,
) -> bool {
    let (facet, code) = spec_blocking_classification(check, server_kind);
    &&& issue.server_kind == server_kind
    &&& issue.check_name == check.check_name
    &&& issue.target == check.target
    &&& issue.facet == facet
    &&& issue.reason_code == code
    &&& issue.blocking_reason@ == (match opt_string_view(check.blocking_reason) {
        Some(t) => t,
        None => default_reason_text(code),
    })
    &&& issue.response_excerpt == check.response_excerpt
    &&& issue.error == check.error
    &&& issue.model_contract == check.model_contract
    &&& issue.mcp_contract == check.mcp_contract
}

impl BridgeProbeErrorDto {
    /// A field-for-field copy.
    pub fn copy_of(&self) -> (r: Self)
        ensures
            r == *self,
    {
        BridgeProbeErrorDto {
            layer: copy_opt_string(&self.layer),
            code: self.code,
            message: self.message.clone(),
        }
    }
}

impl BridgeModelContractDto {
    /// A field-for-field copy.
    pub fn copy_of(&self) -> (r: Self)
        ensures
            r == *self,
    {
        BridgeModelContractDto {
            contract_profile: self.contract_profile.clone(),
            payload_kind: self.payload_kind.clone(),
            contract_ok: self.contract_ok,
            has_content: self.has_content,
            has_finish_reason: self.has_finish_reason,
            has_usage: self.has_usage,
            tool_call_count: self.tool_call_count,
            blocking_reason: copy_opt_string(&self.blocking_reason),
        }
    }
}

impl BridgeMcpDefaultRouteContractDto {
    /// A field-for-field copy.
    pub fn copy_of(&self) -> (r: Self)
        ensures
            r == *self,
    {
        BridgeMcpDefaultRouteContractDto {
            route_status: self.route_status.clone(),
            route_target: self.route_target.clone(),
            resolved_server: copy_opt_string(&self.resolved_server),
            describe_ok: self.describe_ok,
            blank_selection_ok: self.blank_selection_ok,
            contract_ok: self.contract_ok,
            blocking_reason: copy_opt_string(&self.blocking_reason),
        }
    }
}

pub fn copy_opt_error(value: &Option<BridgeProbeErrorDto>) -> (r: Option<BridgeProbeErrorDto>)
    ensures
        r == *value,
{
    match value {
        Some(v) => Some(v.copy_of()),
        None => None,
    }
}

pub fn copy_opt_model_contract(value: &Option<BridgeModelContractDto>) -> (r: Option<BridgeModelContractDto>)
    ensures
        r == *value,
{
    match value {
        Some(v) => Some(v.copy_of()),
        None => None,
    }
}

pub fn copy_opt_mcp_contract(value: &Option<BridgeMcpDefaultRouteContractDto>) -> (r: Option<BridgeMcpDefaultRouteContractDto>)
    ensures
        r == *value,
{
    match value {
        Some(v) => Some(v.copy_of()),
        None => None,
    }
}

impl BridgeCutoverBlockingIssueDto {
    /// A field-for-field copy.
    pub fn clone_issue(&self) -> (r: Self)
        ensures
            r == *self,
    {
        BridgeCutoverBlockingIssueDto {
            server_kind: self.server_kind,
            check_name: self.check_name.clone(),
            target: self.target.clone(),
            facet: self.facet,
            reason_code: self.reason_code,
            blocking_reason: self.blocking_reason.clone(),
            response_excerpt: copy_opt_string(&self.response_excerpt),
            error: copy_opt_error(&self.error),
            model_contract: copy_opt_model_contract(&self.model_contract),
            mcp_contract: copy_opt_mcp_contract(&self.mcp_contract),
        }
    }
}

impl BridgeCutoverCheckDto {
    /// A field-for-field copy.
    pub fn copy_of(&self) -> (r: Self)
        ensures
            r == *self,
    {
        BridgeCutoverCheckDto {
            check_name: self.check_name.clone(),
            target: self.target.clone(),
            ok: self.ok,
            blocking_reason: copy_opt_string(&self.blocking_reason),
            response_excerpt: copy_opt_string(&self.response_excerpt),
            error: copy_opt_error(&self.error),
            model_contract: copy_opt_model_contract(&self.model_contract),
            mcp_contract: copy_opt_mcp_contract(&self.mcp_contract),
        }
    }

    /// The blocking issue that this check raises: none when it passed, else
    /// its facet and reason code with the check's details.
    pub fn blocking_issue(&self, server_kind: BridgeServerKind) -> (r: Option<BridgeCutoverBlockingIssueDto>)
        ensures
            r is None <==> self.ok,
            r matches Some(issue) ==> is_issue_of(issue, *self, server_kind),
    {
        if self.ok {
            return None;
        }
        let (facet, reason_code) = if opt_str_eq(&self.blocking_reason, MCP_MANAGER_LIST_SERVERS_FAILED_REASON) {
            (
                BridgeCutoverBlockingFacet::McpDefaultRoute,
                BridgeCutoverBlockingReasonCode::McpListServersFailed,
            )
        } else if let Some(contract) = &self.mcp_contract {
            (BridgeCutoverBlockingFacet::McpDefaultRoute, infer_mcp_reason_code(self, contract))
        } else if let Some(contract) = &self.model_contract {
            (BridgeCutoverBlockingFacet::ModelContract, infer_model_reason_code(self, Some(contract)))
        } else if server_kind == BridgeServerKind::Model {
            (BridgeCutoverBlockingFacet::BridgeResponse, infer_model_reason_code(self, None))
        } else {
            (BridgeCutoverBlockingFacet::BridgeResponse, infer_bridge_response_reason_code(self))
        };
        let blocking_reason = match &self.blocking_reason {
            Some(reason) => reason.clone(),
            None => str_to_string(reason_code.default_blocking_reason()),
        };
        Some(BridgeCutoverBlockingIssueDto {
            server_kind,
            check_name: self.check_name.clone(),
            target: self.target.clone(),
            facet,
            reason_code,
            blocking_reason,
            response_excerpt: copy_opt_string(&self.response_excerpt),
            error: copy_opt_error(&self.error),
            model_contract: copy_opt_model_contract(&self.model_contract),
            mcp_contract: copy_opt_mcp_contract(&self.mcp_contract),
        })
    }
}

/// The reason code of a failed plain bridge response.
pub fn infer_bridge_response_reason_code(check: &BridgeCutoverCheckDto) -> (r: BridgeCutoverBlockingReasonCode)
    ensures
        r == spec_bridge_response_reason_code(*check),
{
    if check.error.is_some() {
        return BridgeCutoverBlockingReasonCode::BridgeInvocationFailed;
    }
    if opt_str_eq(&check.blocking_reason, "bridge response payload was empty") || opt_str_eq(
        &check.blocking_reason,
        "bridge payload was empty",
    ) {
        BridgeCutoverBlockingReasonCode::BridgeResponseEmptyPayload
    } else {
        BridgeCutoverBlockingReasonCode::BridgeResponseNotOk
    }
}

/// The reason code of a failed model check.
pub fn infer_model_reason_code(
    check: &BridgeCutoverCheckDto,
    contract: Option<&BridgeModelContractDto>,
) -> (r: BridgeCutoverBlockingReasonCode)
    ensures
        r == spec_model_reason_code(*check, match contract { Some(c) => Some(*c), None => None }),
{
    let code = match &check.error {
        Some(error) => error.code,
        None => None,
    };
    if let Some(reason_code) = infer_model_provider_reason_code(code) {
        return reason_code;
    }
    if let Some(c) = contract {
        if !c.contract_ok {
            return if opt_str_eq(&c.blocking_reason, "bridge payload was empty") {
                BridgeCutoverBlockingReasonCode::ModelPayloadEmpty
            } else if opt_str_eq(&c.blocking_reason, "structured payload contains invalid tool_calls") {
                BridgeCutoverBlockingReasonCode::ModelStructuredPayloadInvalidToolCalls
            } else if opt_str_eq(&c.blocking_reason, "structured payload missing content or tool_calls") {
                BridgeCutoverBlockingReasonCode::ModelStructuredPayloadMissingContentOrToolCalls
            } else {
                BridgeCutoverBlockingReasonCode::BridgeResponseNotOk
            };
        }
    }
    infer_bridge_response_reason_code(check)
}

/// The provider failure that a JSON-RPC error code of the model bridge names.
pub fn infer_model_provider_reason_code(error_code: Option<i64>) -> (r: Option<BridgeCutoverBlockingReasonCode>)
    ensures
        r == spec_model_provider_reason_code(error_code),
{
    match error_code {
        Some(c) => if c == -32003 {
            Some(BridgeCutoverBlockingReasonCode::ModelProviderUnavailable)
        } else if c == -32004 {
            Some(BridgeCutoverBlockingReasonCode::ModelProviderMisconfigured)
        } else if c == -32005 {
            Some(BridgeCutoverBlockingReasonCode::ModelProviderTransportFailed)
        } else if c == -32006 {
            Some(BridgeCutoverBlockingReasonCode::ModelProviderRejected)
        } else if c == -32007 {
            Some(BridgeCutoverBlockingReasonCode::ModelProviderInvalidResponse)
        } else {
            None
        },
        None => None,
    }
}

/// The reason code of a failed MCP default-route check.
pub fn infer_mcp_reason_code(
    check: &BridgeCutoverCheckDto,
    contract: &BridgeMcpDefaultRouteContractDto,
) -> (r: BridgeCutoverBlockingReasonCode)
    ensures
        r == spec_mcp_reason_code(*check, *contract),
{
    if opt_str_eq(&check.blocking_reason, MCP_MANAGER_LIST_SERVERS_FAILED_REASON) {
        return BridgeCutoverBlockingReasonCode::McpListServersFailed;
    }
    let status = contract.route_status.as_str();
    if str_eq(status, "fallback-only") {
        BridgeCutoverBlockingReasonCode::McpDefaultRouteStatusFallbackOnly
    } else if str_eq(status, "unavailable") {
        BridgeCutoverBlockingReasonCode::McpDefaultRouteStatusUnavailable
    } else if str_eq(status, "ready") {
        if !contract.describe_ok {
            BridgeCutoverBlockingReasonCode::McpDefaultRouteTargetDescribeFailed
        } else if let Some(reason_code) = infer_ready_mcp_blank_selection_reason_code(
            &contract.blocking_reason,
            check.error.is_some(),
            contract.blank_selection_ok,
        ) {
            reason_code
        } else if !contract.contract_ok && !opt_str_eq(
            &contract.resolved_server,
            contract.route_target.as_str(),
        ) {
            BridgeCutoverBlockingReasonCode::McpDefaultRouteResolvedServerMismatch
        } else if !contract.contract_ok {
            BridgeCutoverBlockingReasonCode::McpDefaultRouteMetadataDrift
        } else {
            BridgeCutoverBlockingReasonCode::McpBlankSelectionResponseNotOk
        }
    } else {
        BridgeCutoverBlockingReasonCode::McpDefaultRouteStatusUnsupported
    }
}

/// The blank-selection failure on a ready default route, if any.
pub fn infer_ready_mcp_blank_selection_reason_code(
    blocking_reason: &Option<String>,
    has_error: bool,
    blank_selection_ok: bool,
) -> (r: Option<BridgeCutoverBlockingReasonCode>)
    ensures
        r == spec_ready_mcp_blank_selection_reason_code(
            opt_string_view(*blocking_reason),
            has_error,
            blank_selection_ok,
        ),
{
    if opt_str_eq(blocking_reason, MCP_BLANK_SELECTION_INVOCATION_FAILED_REASON) {
        Some(BridgeCutoverBlockingReasonCode::McpBlankSelectionInvocationFailed)
    } else if opt_str_eq(blocking_reason, MCP_BLANK_SELECTION_RESPONSE_NOT_OK_REASON) {
        Some(BridgeCutoverBlockingReasonCode::McpBlankSelectionResponseNotOk)
    } else if opt_str_eq(blocking_reason, MCP_DEFAULT_ROUTE_METADATA_DRIFT_REASON) {
        Some(BridgeCutoverBlockingReasonCode::McpDefaultRouteMetadataDrift)
    } else if opt_str_eq(blocking_reason, MCP_DEFAULT_ROUTE_RESOLVED_SERVER_MISMATCH_REASON) {
        Some(BridgeCutoverBlockingReasonCode::McpDefaultRouteResolvedServerMismatch)
    } else if !blank_selection_ok && has_error {
        Some(BridgeCutoverBlockingReasonCode::McpBlankSelectionInvocationFailed)
    } else if !blank_selection_ok {
        Some(BridgeCutoverBlockingReasonCode::McpBlankSelectionResponseNotOk)
    } else {
        None
    }
}

} // verus!
