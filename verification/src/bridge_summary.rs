//! Service and snapshot summaries of the bridge cutover checks.

use vstd::prelude::*;
use crate::bridge_dto::{
    copy_opt_mcp_contract, is_issue_of, reason_code_name, BridgeCutoverBlockingIssueDto,
    BridgeCutoverCheckDto, BridgeMcpDefaultRouteContractDto, BridgeServerKind,
};
use crate::tally::{
    count_views, lemma_entry_le_total, lemma_sorted_tally, lemma_tally_total, sort_counts_by_key, sorted_tally, tally,
    tally_push, tally_total,
};
use crate::text::copy_opt_string;

verus! {

/// The MCP default route as the service summary shows it.
#[derive(Clone, Debug, PartialEq, Eq)]
pub struct BridgeMcpDefaultRouteGateDto {
    pub route_status: String,
    pub route_target: String,
    pub resolved_server: Option<String>,
    pub contract_ok: bool,
}

/// The cutover checks of one bridge service.
#[derive(Clone, Debug, PartialEq, Eq)]
pub struct BridgeCutoverServiceDto {
    pub service_ok: bool,
    pub blocking_check_count: usize,
    pub blocking_targets: Vec<String>,
    pub mcp_default_route_gate: Option<BridgeMcpDefaultRouteGateDto>,
    pub server_kind: BridgeServerKind,
    pub checks: Vec<BridgeCutoverCheckDto>,
}

/// The cutover checks of all bridge services. The counts hold one entry per
/// distinct key, in ascending order of key.
#[derive(Clone, Debug, PartialEq, Eq)]
pub struct BridgeCutoverSmokeSnapshotDto {
    pub overall_ok: bool,
    pub checked_service_count: usize,
    pub blocking_check_count: usize,
    pub blocking_services: Vec<BridgeServerKind>,
    pub blocking_issue_counts_by_reason_code: Vec<(String, usize)>,
    pub blocking_issue_counts_by_server_kind: Vec<(String, usize)>,
    pub blocking_issues: Vec<BridgeCutoverBlockingIssueDto>,
    pub services: Vec<BridgeCutoverServiceDto>,
}

/// The key under which issues of a server kind are counted.
pub open spec fn server_kind_key(kind: BridgeServerKind) -> Seq<char> {
    match kind {
        BridgeServerKind::Model => "model"@,
        BridgeServerKind::Host => "host"@,
        BridgeServerKind::Mcp => "mcp"@,
    }
}

pub fn bridge_server_kind_key(kind: BridgeServerKind) -> (s: &'static str)
    ensures
        s@ == server_kind_key(kind),
{
    match kind {
        BridgeServerKind::Model => "model",
        BridgeServerKind::Host => "host",
        BridgeServerKind::Mcp => "mcp",
    }
}

/// The checks that failed, in order.
pub open spec fn failing_checks(checks: Seq<BridgeCutoverCheckDto>) -> Seq<BridgeCutoverCheckDto>
    decreases checks.len(),
{
    if checks.len() == 0 {
        Seq::empty()
    } else if checks.last().ok {
        failing_checks(checks.drop_last())
    } else {
        failing_checks(checks.drop_last()).push(checks.last())
    }
}

/// The first MCP default-route contract among the checks.
pub open spec fn first_mcp_contract(checks: Seq<BridgeCutoverCheckDto>) -> Option<BridgeMcpDefaultRouteContractDto>
    decreases checks.len(),
{
    if checks.len() == 0 {
        None
    } else if checks[0].mcp_contract is Some {
        checks[0].mcp_contract
    } else {
        first_mcp_contract(checks.drop_first())
    }
}

/// `gate` shows the route of `contract`.
pub open spec fn is_gate_of(gate: BridgeMcpDefaultRouteGateDto, contract: BridgeMcpDefaultRouteContractDto) -> bool {
    &&& gate.route_status == contract.route_status
    &&& gate.route_target == contract.route_target
    &&& gate.resolved_server == contract.resolved_server
    &&& gate.contract_ok == contract.contract_ok
}

/// `issues` are, one for one and in order, the issues of the failed checks
/// among `checks` of a `kind` service.
pub open spec fn are_issues_of(
    issues: Seq<BridgeCutoverBlockingIssueDto>,
    checks: Seq<BridgeCutoverCheckDto>,
    kind: BridgeServerKind,
) -> bool {
    let failing = failing_checks(checks);
    &&& issues.len() == failing.len()
    &&& forall|j: int| 0 <= j < issues.len() ==> is_issue_of(#[trigger] issues[j], failing[j], kind)
}

pub proof fn lemma_failing_checks_push(checks: Seq<BridgeCutoverCheckDto>, c: BridgeCutoverCheckDto)
    ensures
        failing_checks(checks.push(c)) == if c.ok {
            failing_checks(checks)
        } else {
            failing_checks(checks).push(c)
        },
{
    assert(checks.push(c).drop_last() == checks);
    assert(checks.push(c).last() == c);
}

pub proof fn lemma_first_mcp_contract_push(checks: Seq<BridgeCutoverCheckDto>, c: BridgeCutoverCheckDto)
    ensures
        first_mcp_contract(checks.push(c)) == if first_mcp_contract(checks) is Some {
            first_mcp_contract(checks)
        } else {
            c.mcp_contract
        },
    decreases checks.len(),
{
    if checks.len() > 0 {
        assert(checks.push(c).drop_first() == checks.drop_first().push(c));
        assert(checks.push(c)[0] == checks[0]);
        lemma_first_mcp_contract_push(checks.drop_first(), c);
        if checks[0].mcp_contract is Some {
            assert(first_mcp_contract(checks.push(c)) == checks[0].mcp_contract);
            assert(first_mcp_contract(checks) == checks[0].mcp_contract);
        } else {
            assert(first_mcp_contract(checks.push(c)) == first_mcp_contract(checks.push(c).drop_first()));
            assert(first_mcp_contract(checks) == first_mcp_contract(checks.drop_first()));
        }
    } else {
        assert(checks.push(c).drop_first() == Seq::<BridgeCutoverCheckDto>::empty());
        assert(checks.push(c)[0] == c);
    }
}

/// `service` summarizes `checks` of a `kind` service: the targets of the
/// failed checks in order, their number, whether none failed, and the route
/// summary of the first default-route contract.
pub open spec fn is_service_summary_of(
    service: BridgeCutoverServiceDto,
    kind: BridgeServerKind,
    checks: Seq<BridgeCutoverCheckDto>,
) -> bool {
    &&& service.server_kind == kind
    &&& service.checks@ == checks
    &&& service.blocking_targets@.len() == failing_checks(checks).len()
    &&& forall|j: int| 0 <= j < service.blocking_targets@.len()
        ==> #[trigger] service.blocking_targets@[j] == failing_checks(checks)[j].target
    &&& service.blocking_check_count == failing_checks(checks).len()
    &&& service.service_ok == (service.blocking_check_count == 0)
    &&& service.mcp_default_route_gate is Some == first_mcp_contract(checks) is Some
    &&& service.mcp_default_route_gate is Some
        ==> is_gate_of(service.mcp_default_route_gate->0, first_mcp_contract(checks)->0)
}

impl BridgeMcpDefaultRouteGateDto {
    /// The route summary of a default-route contract.
    pub fn from_contract(contract: &BridgeMcpDefaultRouteContractDto) -> (gate: Self)
        ensures
            is_gate_of(gate, *contract),
    {
        BridgeMcpDefaultRouteGateDto {
            route_status: contract.route_status.clone(),
            route_target: contract.route_target.clone(),
            resolved_server: copy_opt_string(&contract.resolved_server),
            contract_ok: contract.contract_ok,
        }
    }
}

impl BridgeCutoverServiceDto {
    /// Summarizes the checks of one service: the failed targets, whether it
    /// passed, and the route summary of its first default-route contract.
    pub fn from_checks(server_kind: BridgeServerKind, checks: Vec<BridgeCutoverCheckDto>) -> (r: Self)
        ensures
            is_service_summary_of(r, server_kind, checks@),
    {
        let mut blocking_targets: Vec<String> = Vec::new();
        let mut first_contract: Option<BridgeMcpDefaultRouteContractDto> = None;
        let mut i: usize = 0;
        while i < checks.len()
            invariant
                i <= checks@.len(),
                blocking_targets@.len() == failing_checks(checks@.take(i as int)).len(),
                forall|j: int| 0 <= j < blocking_targets@.len() ==> #[trigger] blocking_targets@[j] == failing_checks(checks@.take(i as int))[j].target,
                first_contract == first_mcp_contract(checks@.take(i as int)),
            decreases checks@.len() - i,
        {
            proof {
                assert(checks@.take(i + 1) == checks@.take(i as int).push(checks@[i as int]));
                lemma_failing_checks_push(checks@.take(i as int), checks@[i as int]);
                lemma_first_mcp_contract_push(checks@.take(i as int), checks@[i as int]);
            }
            if !checks[i].ok {
                blocking_targets.push(checks[i].target.clone());
            }
            if first_contract.is_none() {
                first_contract = copy_opt_mcp_contract(&checks[i].mcp_contract);
            }
            i = i + 1;
        }
        assert(checks@.take(checks@.len() as int) == checks@);
        let blocking_check_count = blocking_targets.len();
        let mcp_default_route_gate = match &first_contract {
            Some(c) => Some(BridgeMcpDefaultRouteGateDto::from_contract(c)),
            None => None,
        };
        BridgeCutoverServiceDto {
            service_ok: blocking_check_count == 0,
            blocking_check_count,
            blocking_targets,
            mcp_default_route_gate,
            server_kind,
            checks,
        }
    }

    /// The blocking issues of the failed checks, in order.
    pub fn blocking_issues(&self) -> (r: Vec<BridgeCutoverBlockingIssueDto>)
        ensures
            are_issues_of(r@, self.checks@, self.server_kind),
    {
        let mut out: Vec<BridgeCutoverBlockingIssueDto> = Vec::new();
        let mut i: usize = 0;
        while i < self.checks.len()
            invariant
                i <= self.checks@.len(),
                are_issues_of(out@, self.checks@.take(i as int), self.server_kind),
            decreases self.checks@.len() - i,
        {
            proof {
                assert(self.checks@.take(i + 1) == self.checks@.take(i as int).push(self.checks@[i as int]));
                lemma_failing_checks_push(self.checks@.take(i as int), self.checks@[i as int]);
            }
            if let Some(issue) = self.checks[i].blocking_issue(self.server_kind) {
                out.push(issue);
            }
            i = i + 1;
        }
        assert(self.checks@.take(self.checks@.len() as int) == self.checks@);
        out
    }
}


/// The failed checks of all services, each with its service's kind, in order.
pub open spec fn failing_pairs(services: Seq<BridgeCutoverServiceDto>) -> Seq<(BridgeCutoverCheckDto, BridgeServerKind)>
    decreases services.len(),
{
    if services.len() == 0 {
        Seq::empty()
    } else {
        let last = services.last();
        failing_pairs(services.drop_last()) + failing_checks(last.checks@).map_values(
            |c: BridgeCutoverCheckDto| (c, last.server_kind),
        )
    }
}

/// The kinds of the services that have a failed check, in order.
pub open spec fn blocking_kinds(services: Seq<BridgeCutoverServiceDto>) -> Seq<BridgeServerKind>
    decreases services.len(),
{
    if services.len() == 0 {
        Seq::empty()
    } else if failing_checks(services.last().checks@).len() > 0 {
        blocking_kinds(services.drop_last()).push(services.last().server_kind)
    } else {
        blocking_kinds(services.drop_last())
    }
}

/// `issues` are, one for one and in order, the issues of the failed checks.
pub open spec fn are_issues_of_pairs(
    issues: Seq<BridgeCutoverBlockingIssueDto>,
    pairs: Seq<(BridgeCutoverCheckDto, BridgeServerKind)>,
) -> bool {
    &&& issues.len() == pairs.len()
    &&& forall|j: int| 0 <= j < issues.len() ==> is_issue_of(#[trigger] issues[j], pairs[j].0, pairs[j].1)
}

pub open spec fn reason_keys(issues: Seq<BridgeCutoverBlockingIssueDto>) -> Seq<Seq<char>> {
    issues.map_values(|i: BridgeCutoverBlockingIssueDto| reason_code_name(i.reason_code))
}

pub open spec fn kind_keys(issues: Seq<BridgeCutoverBlockingIssueDto>) -> Seq<Seq<char>> {
    issues.map_values(|i: BridgeCutoverBlockingIssueDto| server_kind_key(i.server_kind))
}

/// The number of issues for each reason code, in ascending order of code.
pub fn blocking_issue_counts_by_reason_code(issues: &Vec<BridgeCutoverBlockingIssueDto>) -> (r: Vec<(String, usize)>)
    ensures
        count_views(r@) == sorted_tally(reason_keys(issues@)),
{
    let ghost keys = reason_keys(issues@);
    let mut counts: Vec<(String, usize)> = Vec::new();
    let mut i: usize = 0;
    while i < issues.len()
        invariant
            i <= issues@.len(),
            keys == reason_keys(issues@),
            count_views(counts@) == tally(keys.take(i as int)),
        decreases issues@.len() - i,
    {
        proof {
            lemma_tally_total(keys.take(i as int));
            assert forall|j: int| 0 <= j < counts@.len() implies #[trigger] counts@[j].1 < usize::MAX by {
                lemma_entry_le_total(count_views(counts@), j);
                assert(count_views(counts@)[j].1 == counts@[j].1);
            }
            assert(keys.take(i + 1).drop_last() == keys.take(i as int));
        }
        tally_push(&mut counts, issues[i].reason_code.as_str());
        i = i + 1;
    }
    assert(keys.take(issues@.len() as int) == keys);
    sort_counts_by_key(counts)
}

/// The number of issues for each server kind, in ascending order of kind key.
pub fn blocking_issue_counts_by_server_kind(issues: &Vec<BridgeCutoverBlockingIssueDto>) -> (r: Vec<(String, usize)>)
    ensures
        count_views(r@) == sorted_tally(kind_keys(issues@)),
{
    let ghost keys = kind_keys(issues@);
    let mut counts: Vec<(String, usize)> = Vec::new();
    let mut i: usize = 0;
    while i < issues.len()
        invariant
            i <= issues@.len(),
            keys == kind_keys(issues@),
            count_views(counts@) == tally(keys.take(i as int)),
        decreases issues@.len() - i,
    {
        proof {
            lemma_tally_total(keys.take(i as int));
            assert forall|j: int| 0 <= j < counts@.len() implies #[trigger] counts@[j].1 < usize::MAX by {
                lemma_entry_le_total(count_views(counts@), j);
                assert(count_views(counts@)[j].1 == counts@[j].1);
            }
            assert(keys.take(i + 1).drop_last() == keys.take(i as int));
        }
        tally_push(&mut counts, bridge_server_kind_key(issues[i].server_kind));
        i = i + 1;
    }
    assert(keys.take(issues@.len() as int) == keys);
    sort_counts_by_key(counts)
}

impl BridgeCutoverSmokeSnapshotDto {
    /// Summarizes the services: the issues of all failed checks, their
    /// counts by reason code and by server kind, and the blocking services.
    pub fn from_services(services: Vec<BridgeCutoverServiceDto>) -> (r: Self)
        ensures
            r.services@ == services@,
            r.checked_service_count == services@.len(),
            r.blocking_services@ == blocking_kinds(services@),
            are_issues_of_pairs(r.blocking_issues@, failing_pairs(services@)),
            r.blocking_check_count == failing_pairs(services@).len(),
            r.overall_ok == (r.blocking_check_count == 0),
            count_views(r.blocking_issue_counts_by_reason_code@) == sorted_tally(reason_keys(r.blocking_issues@)),
            count_views(r.blocking_issue_counts_by_server_kind@) == sorted_tally(kind_keys(r.blocking_issues@)),
            tally_total(count_views(r.blocking_issue_counts_by_reason_code@)) == r.blocking_check_count,
            tally_total(count_views(r.blocking_issue_counts_by_server_kind@)) == r.blocking_check_count,
    {
        let mut blocking_services: Vec<BridgeServerKind> = Vec::new();
        let mut blocking_issues: Vec<BridgeCutoverBlockingIssueDto> = Vec::new();
        let mut i: usize = 0;
        while i < services.len()
            invariant
                i <= services@.len(),
                blocking_services@ == blocking_kinds(services@.take(i as int)),
                are_issues_of_pairs(blocking_issues@, failing_pairs(services@.take(i as int))),
            decreases services@.len() - i,
        {
            let ghost prefix = services@.take(i as int);
            let ghost before = blocking_issues@;
            proof {
                assert(services@.take(i + 1).drop_last() == prefix);
                assert(services@.take(i + 1).last() == services@[i as int]);
            }
            let service = &services[i];
            let issues = service.blocking_issues();
            if issues.len() > 0 {
                blocking_services.push(service.server_kind);
            }
            let mut k: usize = 0;
            while k < issues.len()
                invariant
                    k <= issues@.len(),
                    are_issues_of(issues@, service.checks@, service.server_kind),
                    blocking_issues@ == before + issues@.take(k as int),
                decreases issues@.len() - k,
            {
                blocking_issues.push(issues[k].clone_issue());
                assert(issues@.take(k + 1) == issues@.take(k as int).push(issues@[k as int]));
                k = k + 1;
            }
            proof {
                assert(issues@.take(issues@.len() as int) == issues@);
                let pairs = failing_pairs(services@.take(i + 1));
                let added = failing_checks(service.checks@).map_values(
                    |c: BridgeCutoverCheckDto| (c, service.server_kind),
                );
                assert(pairs == failing_pairs(prefix) + added);
                assert forall|j: int| 0 <= j < blocking_issues@.len() implies is_issue_of(
                    #[trigger] blocking_issues@[j],
                    pairs[j].0,
                    pairs[j].1,
                ) by {
                    if j >= before.len() {
                        assert(blocking_issues@[j] == issues@[j - before.len()]);
                        assert(pairs[j] == added[j - before.len()]);
                    } else {
                        assert(blocking_issues@[j] == before[j]);
                        assert(pairs[j] == failing_pairs(prefix)[j]);
                    }
                }
            }
            i = i + 1;
        }
        assert(services@.take(services@.len() as int) == services@);
        let blocking_issue_counts_by_reason_code = blocking_issue_counts_by_reason_code(&blocking_issues);
        let blocking_issue_counts_by_server_kind = blocking_issue_counts_by_server_kind(&blocking_issues);
        proof {
            lemma_sorted_tally(reason_keys(blocking_issues@));
            lemma_sorted_tally(kind_keys(blocking_issues@));
        }
        let blocking_check_count = blocking_issues.len();
        BridgeCutoverSmokeSnapshotDto {
            overall_ok: blocking_check_count == 0,
            checked_service_count: services.len(),
            blocking_check_count,
            blocking_services,
            blocking_issue_counts_by_reason_code,
            blocking_issue_counts_by_server_kind,
            blocking_issues,
            services,
        }
    }

    /// The summary of no services.
    pub fn default() -> (r: Self)
        ensures
            r.services@.len() == 0,
            r.overall_ok,
            r.checked_service_count == 0,
            r.blocking_check_count == 0,
            r.blocking_services@.len() == 0,
            r.blocking_issues@.len() == 0,
            r.blocking_issue_counts_by_reason_code@.len() == 0,
            r.blocking_issue_counts_by_server_kind@.len() == 0,
    {
        let r = Self::from_services(Vec::new());
        assert(r.blocking_issues@.len() == 0);
        assert(reason_keys(r.blocking_issues@) == Seq::<Seq<char>>::empty());
        assert(kind_keys(r.blocking_issues@) == Seq::<Seq<char>>::empty());
        r
    }
}


/// The index of the first model service, if there is one.
pub open spec fn first_model_index(services: Seq<BridgeCutoverServiceDto>) -> Option<int>
    decreases services.len(),
{
    if services.len() == 0 {
        None
    } else if services.last().server_kind == BridgeServerKind::Model && !(first_model_index(services.drop_last()) is Some) {
        Some(services.len() - 1)
    } else {
        first_model_index(services.drop_last())
    }
}

pub proof fn lemma_first_model_index(services: Seq<BridgeCutoverServiceDto>)
    ensures
        first_model_index(services) matches Some(i) ==> 0 <= i < services.len()
            && services[i].server_kind == BridgeServerKind::Model
            && forall|j: int| 0 <= j < i ==> #[trigger] services[j].server_kind != BridgeServerKind::Model,
        first_model_index(services) is None ==> forall|j: int| 0 <= j < services.len()
            ==> #[trigger] services[j].server_kind != BridgeServerKind::Model,
    decreases services.len(),
{
    if services.len() > 0 {
        lemma_first_model_index(services.drop_last());
        assert forall|j: int| 0 <= j < services.len() - 1 implies #[trigger] services[j] == services.drop_last()[j] by {}
    }
}

/// `merged` is `services` with one more check for the model service: the
/// first model service is summarized anew with the check appended to its
/// checks, or, where there is none, a model service of that check alone is
/// appended.
pub open spec fn is_merged_with_model_check(
    merged: Seq<BridgeCutoverServiceDto>,
    services: Seq<BridgeCutoverServiceDto>,
    check: BridgeCutoverCheckDto,
) -> bool {
    match first_model_index(services) {
        Some(i) => {
            &&& merged.len() == services.len()
            &&& forall|j: int| 0 <= j < services.len() && j != i ==> #[trigger] merged[j] == services[j]
            &&& is_service_summary_of(merged[i], BridgeServerKind::Model, services[i].checks@.push(check))
        },
        None => {
            &&& merged.len() == services.len() + 1
            &&& merged.take(services.len() as int) == services
            &&& is_service_summary_of(merged.last(), BridgeServerKind::Model, seq![check])
        },
    }
}

/// Adds a check to the model service, summarizing it anew.
pub fn merge_model_check(services: Vec<BridgeCutoverServiceDto>, check: BridgeCutoverCheckDto) -> (r: Vec<BridgeCutoverServiceDto>)
    ensures
        is_merged_with_model_check(r@, services@, check),
{
    let ghost input = services@;
    let mut out = services;
    let mut i: usize = 0;
    while i < out.len()
        invariant
            out@ == input,
            input == services@,
            i <= out@.len(),
            forall|j: int| 0 <= j < i ==> #[trigger] out@[j].server_kind != BridgeServerKind::Model,
        decreases out@.len() - i,
    {
        if out[i].server_kind == BridgeServerKind::Model {
            proof {
                lemma_first_model_index(input);
            }
            assert(first_model_index(input) == Some(i as int));
            let service = out.remove(i);
            let mut checks = service.checks;
            checks.push(check);
            assert(checks@ == input[i as int].checks@.push(check));
            let summary = BridgeCutoverServiceDto::from_checks(BridgeServerKind::Model, checks);
            out.insert(i, summary);
            assert forall|j: int| 0 <= j < input.len() && j != i implies #[trigger] out@[j] == input[j] by {}
            return out;
        }
        i = i + 1;
    }
    proof {
        lemma_first_model_index(input);
    }
    let mut checks: Vec<BridgeCutoverCheckDto> = Vec::new();
    checks.push(check);
    assert(checks@ == seq![check]);
    out.push(BridgeCutoverServiceDto::from_checks(BridgeServerKind::Model, checks));
    assert(out@.take(input.len() as int) == input);
    out
}

/// The snapshot of the services, with the direct HTTP provider's check, where
/// one was made, added to the model service.
pub fn cutover_smoke_snapshot(
    services: Vec<BridgeCutoverServiceDto>,
    direct_http_check: Option<BridgeCutoverCheckDto>,
) -> (r: BridgeCutoverSmokeSnapshotDto)
    ensures
        match direct_http_check {
            Some(check) => is_merged_with_model_check(r.services@, services@, check),
            None => r.services@ == services@,
        },
        r.checked_service_count == r.services@.len(),
        r.blocking_services@ == blocking_kinds(r.services@),
        are_issues_of_pairs(r.blocking_issues@, failing_pairs(r.services@)),
        r.blocking_check_count == failing_pairs(r.services@).len(),
        r.overall_ok == (r.blocking_check_count == 0),
        count_views(r.blocking_issue_counts_by_reason_code@) == sorted_tally(reason_keys(r.blocking_issues@)),
        count_views(r.blocking_issue_counts_by_server_kind@) == sorted_tally(kind_keys(r.blocking_issues@)),
{
    let services = match direct_http_check {
        Some(check) => merge_model_check(services, check),
        None => services,
    };
    BridgeCutoverSmokeSnapshotDto::from_services(services)
}

} // verus!
