//! The preflight checks of the bridge services, and the per-kind registry
//! of the bridge bindings that the snapshot providers keep.

use vstd::prelude::*;
use crate::bridge_checks::{BridgeReply, BridgeServiceDescriptor};
use crate::bridge_dto::{BridgeProbeErrorDto, BridgeServerKind};
use crate::redaction::{excerpt, spec_excerpt};
use crate::text::{decimal, opt_string_view, str_eq, str_to_string, usize_to_decimal};

verus! {

/// One preflight check and its outcome.
#[derive(Clone, Debug)]
pub struct BridgePreflightCheckDto {
    pub check_name: String,
    pub target: String,
    pub ok: bool,
    pub response_excerpt: Option<String>,
    pub error: Option<BridgeProbeErrorDto>,
}

/// The preflight checks of one bridge service.
#[derive(Clone, Debug)]
pub struct BridgePreflightServiceDto {
    pub server_kind: BridgeServerKind,
    pub checks: Vec<BridgePreflightCheckDto>,
}

/// `check` is the preflight check of a call whose outcome carries a
/// payload (`Ok`) or an error: it passes where the reply was ok, and shows
/// the payload's excerpt.
pub open spec fn is_response_check_of(
    check: BridgePreflightCheckDto,
    check_name: Seq<char>,
    target: Seq<char>,
    result: Result<BridgeReply, BridgeProbeErrorDto>,
) -> bool {
    &&& check.check_name@ == check_name
    &&& check.target@ == target
    &&& match result {
        Ok(reply) => {
            &&& check.ok == reply.ok
            &&& opt_string_view(check.response_excerpt) == Some(spec_excerpt(reply.payload@))
            &&& check.error is None
        },
        Err(error) => {
            &&& !check.ok
            &&& check.response_excerpt is None
            &&& check.error == Some(error)
        },
    }
}

/// The preflight check of one bridge call.
pub fn bridge_response_check(
    check_name: String,
    target: String,
    result: Result<BridgeReply, BridgeProbeErrorDto>,
) -> (r: BridgePreflightCheckDto)
    ensures
        is_response_check_of(r, check_name@, target@, result),
{
    match result {
        Ok(reply) => BridgePreflightCheckDto {
            check_name,
            target,
            ok: reply.ok,
            response_excerpt: Some(excerpt(reply.payload.as_str())),
            error: None,
        },
        Err(error) => BridgePreflightCheckDto {
            check_name,
            target,
            ok: false,
            response_excerpt: None,
            error: Some(error),
        },
    }
}

/// `check` is the preflight check of a call that yields a summary line: it
/// passes whenever the call succeeded.
pub open spec fn is_summary_check_of(
    check: BridgePreflightCheckDto,
    check_name: Seq<char>,
    target: Seq<char>,
    result: Result<String, BridgeProbeErrorDto>,
) -> bool {
    &&& check.check_name@ == check_name
    &&& check.target@ == target
    &&& match result {
        Ok(summary) => {
            &&& check.ok
            &&& opt_string_view(check.response_excerpt) == Some(spec_excerpt(summary@))
            &&& check.error is None
        },
        Err(error) => {
            &&& !check.ok
            &&& check.response_excerpt is None
            &&& check.error == Some(error)
        },
    }
}

/// The preflight check of a call summarized in one line.
pub fn summary_check(
    check_name: String,
    target: String,
    result: Result<String, BridgeProbeErrorDto>,
) -> (r: BridgePreflightCheckDto)
    ensures
        is_summary_check_of(r, check_name@, target@, result),
{
    match result {
        Ok(summary) => BridgePreflightCheckDto {
            check_name,
            target,
            ok: true,
            response_excerpt: Some(excerpt(summary.as_str())),
            error: None,
        },
        Err(error) => BridgePreflightCheckDto {
            check_name,
            target,
            ok: false,
            response_excerpt: None,
            error: Some(error),
        },
    }
}

/// The summary line of the MCP manager's server list.
pub open spec fn server_list_summary(server_count: nat, status: Seq<char>, target: Seq<char>) -> Seq<char> {
    "servers:"@ + decimal(server_count) + " default_route:"@ + status + "->"@ + target
}

/// `servers:{count} default_route:{status}->{target}`.
pub fn mcp_server_list_summary(server_count: usize, route_status: &str, route_target: &str) -> (r: String)
    ensures
        r@ == server_list_summary(server_count as nat, route_status@, route_target@),
{
    let mut r = str_to_string("servers:");
    let count = usize_to_decimal(server_count);
    r.append(count.as_str());
    r.append(" default_route:");
    r.append(route_status);
    r.append("->");
    r.append(route_target);
    r
}

/// `server.tool`, the target of a tool call.
pub fn tool_call_target(server_name: &str, tool_name: &str) -> (r: String)
    ensures
        r@ == server_name@ + "."@ + tool_name@,
{
    let mut r = str_to_string(server_name);
    r.append(".");
    r.append(tool_name);
    r
}

/// The catalog lists a ready OpenAI-compatible service.
pub open spec fn has_ready_openai(catalog: Seq<BridgeServiceDescriptor>) -> bool {
    exists|i: int| 0 <= i < catalog.len() && #[trigger] catalog[i].service_name@ == "openai-compatible"@
        && opt_string_view(catalog[i].service_health) == Some("ready"@)
}

/// Whether the preflight also invokes the OpenAI-compatible service.
pub fn openai_service_ready(catalog: &Vec<BridgeServiceDescriptor>) -> (r: bool)
    ensures
        r == has_ready_openai(catalog@),
{
    let mut i: usize = 0;
    while i < catalog.len()
        invariant
            i <= catalog@.len(),
            forall|j: int| 0 <= j < i ==> !(#[trigger] catalog@[j].service_name@ == "openai-compatible"@
                && opt_string_view(catalog@[j].service_health) == Some("ready"@)),
        decreases catalog@.len() - i,
    {
        let d = &catalog[i];
        let ready = match &d.service_health {
            Some(h) => str_eq(h.as_str(), "ready"),
            None => false,
        };
        if str_eq(d.service_name.as_str(), "openai-compatible") && ready {
            return true;
        }
        i = i + 1;
    }
    false
}

/// The bindings of a snapshot provider, at most one per server kind, in the
/// order in which they were last registered.
#[derive(Clone, Debug)]
pub struct BindingRegistry<T> {
    pub bindings: Vec<(BridgeServerKind, T)>,
}

/// No server kind occurs twice.
pub open spec fn kinds_distinct<T>(bindings: Seq<(BridgeServerKind, T)>) -> bool {
    forall|i: int, j: int| 0 <= i < j < bindings.len() ==> #[trigger] bindings[i].0 != #[trigger] bindings[j].0
}

impl<T> BindingRegistry<T> {
    /// A registry with no bindings.
    pub fn new() -> (r: Self)
        ensures
            r.bindings@.len() == 0,
    {
        BindingRegistry { bindings: Vec::new() }
    }

    /// Registers a binding for `kind`, replacing the one it had: the
    /// bindings of other kinds keep their order, and the new one comes last.
    pub fn register(&mut self, kind: BridgeServerKind, item: T)
        ensures
            final(self).bindings@ == old(self).bindings@.filter(|b: (BridgeServerKind, T)| b.0 != kind).push((kind, item)),
            kinds_distinct(old(self).bindings@) ==> kinds_distinct(final(self).bindings@),
    {
        let ghost before = self.bindings@;
        let ghost keep = |b: (BridgeServerKind, T)| b.0 != kind;
        let mut rest: Vec<(BridgeServerKind, T)> = Vec::new();
        std::mem::swap(&mut rest, &mut self.bindings);
        let mut kept: Vec<(BridgeServerKind, T)> = Vec::new();
        let ghost mut n: int = 0;
        while rest.len() > 0
            invariant
                0 <= n <= before.len(),
                forall|b: (BridgeServerKind, T)| #[trigger] keep(b) == (b.0 != kind),
                rest@ == before.skip(n),
                kept@ == before.take(n).filter(keep),
                forall|i: int| 0 <= i < kept@.len() ==> (#[trigger] kept@[i]).0 != kind,
                forall|i: int| 0 <= i < kept@.len() ==> exists|j: int| 0 <= j < n && #[trigger] before[j] == #[trigger] kept@[i],
                kinds_distinct(before) ==> kinds_distinct(kept@),
            decreases rest@.len(),
        {
            let b = rest.remove(0);
            proof {
                assert(before.take(n + 1) == before.take(n).push(before[n]));
                assert(b == before[n]);
                reveal(Seq::filter);
                assert(before.take(n + 1).drop_last() == before.take(n));
                assert(before.take(n + 1).last() == before[n]);
                assert(before.take(n + 1).filter(keep) == if keep(before[n]) {
                    before.take(n).filter(keep).push(before[n])
                } else {
                    before.take(n).filter(keep)
                });
                assert(before.skip(n).drop_first() == before.skip(n + 1));
            }
            let ghost kept_before = kept@;
            if b.0 != kind {
                kept.push(b);
                proof {
                    assert forall|i: int| 0 <= i < kept@.len() implies exists|j: int| 0 <= j < n + 1 && #[trigger] before[j] == #[trigger] kept@[i] by {
                        if i == kept@.len() - 1 {
                            assert(before[n] == kept@[i]);
                        } else {
                            assert(kept@[i] == kept_before[i]);
                        }
                    }
                    if kinds_distinct(before) {
                        assert forall|i: int, j: int| 0 <= i < j < kept@.len() implies
                            #[trigger] kept@[i].0 != #[trigger] kept@[j].0 by {
                            if j == kept@.len() - 1 {
                                assert(kept@[i] == kept_before[i]);
                                let k = choose|k: int| 0 <= k < n && #[trigger] before[k] == kept_before[i];
                                assert(before[k].0 != before[n].0);
                            } else {
                                assert(kept@[i] == kept_before[i]);
                                assert(kept@[j] == kept_before[j]);
                            }
                        }
                    }
                }
            }
            proof {
                n = n + 1;
            }
        }
        assert(before.take(before.len() as int) == before);
        kept.push((kind, item));
        self.bindings = kept;
    }
}

} // verus!
