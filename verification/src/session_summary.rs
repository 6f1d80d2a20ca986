//! A session's runtime summary from what its sidecar exports: its status,
//! its chain and branches, how many branches can be continued, and the ids
//! that are live.

use vstd::prelude::*;
use crate::ordering::{lex_le, lex_lt, sorted_unique, strictly_sorted, views};
use crate::read_model::{recoverable, root_allows_continue, root_terminal, task_status_name, TaskStatus};
use crate::text::{opt_string_view, str_to_string};
use crate::turn_items::{item_views, turn_item_summaries, turn_item_views, TurnItemExport, TurnItemSummary};

verus! {

/// Where a session's execution sidecar stands.
#[derive(Clone, Copy, Debug, PartialEq, Eq, Structural)]
pub enum SessionSidecarStatus {
    Detached,
    Bound,
    RecoveryLinked,
    Resumed,
}

pub open spec fn sidecar_status_name(s: SessionSidecarStatus) -> Seq<char> {
    match s {
        SessionSidecarStatus::Detached => "detached"@,
        SessionSidecarStatus::Bound => "bound"@,
        SessionSidecarStatus::RecoveryLinked => "recovery_linked"@,
        SessionSidecarStatus::Resumed => "resumed"@,
    }
}

/// A sidecar that is linked to a recovery or resumed runs work now.
pub open spec fn sidecar_active(s: SessionSidecarStatus) -> bool {
    s == SessionSidecarStatus::RecoveryLinked || s == SessionSidecarStatus::Resumed
}

/// One branch of a chain, with its task's status label (`unknown` where
/// the task store does not know it).
#[derive(Clone, Debug)]
pub struct BranchState {
    pub task_id: String,
    pub worker_id: String,
    pub status: String,
    pub stage: String,
    pub is_primary: bool,
}

/// A session's active execution chain, as exported.
#[derive(Clone, Debug)]
pub struct ChainExport {
    pub mission_id: String,
    pub root_task_id: String,
    pub execution_chain_ref: String,
    pub recovery_ref: Option<String>,
    /// The root task's status and creation time, where the store knows it.
    pub root_task: Option<(TaskStatus, u64)>,
    pub branches: Vec<BranchState>,
    pub active_branch_task_ids: Vec<String>,
}

/// What a session's sidecar exports.
#[derive(Clone, Debug)]
pub struct SessionSidecarExport {
    pub session_id: String,
    pub status: SessionSidecarStatus,
    pub last_update: u64,
    pub execution_chain_ref: Option<String>,
    pub recovery_ref: Option<String>,
    pub chain: Option<ChainExport>,
    pub ownership_mission_id: Option<String>,
    pub ownership_task_id: Option<String>,
    /// The session's current turn, where it has one.
    pub current_turn: Option<TurnExport>,
}

/// A session's current turn, as exported.
#[derive(Clone, Debug)]
pub struct TurnExport {
    pub turn_id: String,
    pub turn_seq: u64,
    pub accepted_at: u64,
    pub completed_at: Option<u64>,
    pub status: String,
    pub user_message: Option<String>,
    pub items: Vec<TurnItemExport>,
}

/// What a summary shows of a session's current turn: the turn, how long
/// its response took once it completed, and the chain it runs on.
#[derive(Clone, Debug)]
pub struct TurnSummary {
    pub turn_id: String,
    pub turn_seq: u64,
    pub accepted_at: Option<u64>,
    pub completed_at: Option<u64>,
    pub response_duration_ms: Option<u64>,
    pub status: String,
    pub user_message: Option<String>,
    pub mission_id: Option<String>,
    pub root_task_id: Option<String>,
    pub execution_chain_ref: Option<String>,
}

/// A session's runtime summary.
#[derive(Clone, Debug)]
pub struct SessionRuntimeSummary {
    pub session_id: String,
    pub current_status: String,
    pub last_update: u64,
    pub execution_chain_ref: Option<String>,
    pub recovery_ref: Option<String>,
    pub mission_id: Option<String>,
    pub root_task_id: Option<String>,
    pub root_task_status: Option<String>,
    pub root_task_created_at: Option<u64>,
    pub active_branches: Vec<BranchState>,
    pub recoverable_branch_count: usize,
    pub has_recoverable_chain: bool,
    pub active_execution_group_ids: Vec<String>,
    pub active_task_ids: Vec<String>,
    pub recovery_ids: Vec<String>,
    pub current_turn: Option<TurnSummary>,
    pub turn_items: Vec<TurnItemSummary>,
}

/// The root task's status label, where known.
pub open spec fn root_status(export: SessionSidecarExport) -> Option<Seq<char>> {
    match export.chain {
        Some(c) => match c.root_task {
            Some((s, _)) => Some(task_status_name(s)),
            None => None,
        },
        None => None,
    }
}

/// The number of branches that can be continued.
pub open spec fn recoverable_count(branches: Seq<BranchState>) -> nat
    decreases branches.len(),
{
    if branches.len() == 0 {
        0
    } else {
        recoverable_count(branches.drop_last()) + if recoverable(branches.last().status@, branches.last().stage@) {
            1nat
        } else {
            0nat
        }
    }
}

/// The branches that count as recoverable: none while the root task does
/// not let the chain continue.
pub open spec fn summary_recoverable(export: SessionSidecarExport) -> nat {
    match export.chain {
        Some(c) => if root_allows_continue(root_status(export)) { recoverable_count(c.branches@) } else { 0 },
        None => 0,
    }
}

/// The live ids of a summary are dropped when its root task ended and no
/// branch can be continued.
pub open spec fn ids_cleared(export: SessionSidecarExport) -> bool {
    root_terminal(root_status(export)) && summary_recoverable(export) == 0
}

/// The ids the sidecar contributes of one kind: those of its chain, and,
/// while it runs work for a root task that has not ended, those of its
/// ownership.
pub open spec fn candidate_ids(chain_ids: Seq<Seq<char>>, owned: Option<Seq<char>>, export: SessionSidecarExport) -> Set<Seq<char>> {
    chain_ids.to_set().union(
        if sidecar_active(export.status) && !root_terminal(root_status(export)) {
            match owned {
                Some(o) => set![o],
                None => Set::empty(),
            }
        } else {
            Set::empty()
        },
    )
}

pub open spec fn opt_seq(v: Option<Seq<char>>) -> Seq<Seq<char>> {
    match v {
        Some(x) => seq![x],
        None => Seq::empty(),
    }
}

/// The mission of the chain, as a live execution group.
pub open spec fn chain_group_ids(export: SessionSidecarExport) -> Seq<Seq<char>> {
    match export.chain {
        Some(c) => seq![c.mission_id@],
        None => Seq::empty(),
    }
}

pub open spec fn chain_task_ids(export: SessionSidecarExport) -> Seq<Seq<char>> {
    match export.chain {
        Some(c) => views(c.active_branch_task_ids@),
        None => Seq::empty(),
    }
}

pub open spec fn chain_recovery_ids(export: SessionSidecarExport) -> Seq<Seq<char>> {
    match export.chain {
        Some(c) => opt_seq(opt_string_view(c.recovery_ref)),
        None => Seq::empty(),
    }
}

/// Branch order: by task, then by worker.
pub open spec fn branch_le(a: BranchState, b: BranchState) -> bool {
    lex_lt(a.task_id@, b.task_id@) || (a.task_id@ == b.task_id@ && lex_le(a.worker_id@, b.worker_id@))
}

pub open spec fn branches_sorted(v: Seq<BranchState>) -> bool {
    forall|i: int, j: int| 0 <= i < j < v.len() ==> branch_le(#[trigger] v[i], #[trigger] v[j])
}

pub proof fn lemma_branch_le_total(a: BranchState, b: BranchState)
    ensures
        branch_le(a, b) || branch_le(b, a),
{
    crate::ordering::lemma_lex_total(a.task_id@, b.task_id@);
    crate::ordering::lemma_lex_total(a.worker_id@, b.worker_id@);
    if lex_le(a.task_id@, b.task_id@) && lex_le(b.task_id@, a.task_id@) {
        crate::ordering::lemma_lex_antisymmetric(a.task_id@, b.task_id@);
    }
}

pub proof fn lemma_branch_le_transitive(a: BranchState, b: BranchState, c: BranchState)
    requires
        branch_le(a, b),
        branch_le(b, c),
    ensures
        branch_le(a, c),
{
    if lex_lt(a.task_id@, b.task_id@) {
        if lex_lt(b.task_id@, c.task_id@) {
            crate::ordering::lemma_lex_transitive(a.task_id@, b.task_id@, c.task_id@);
            if a.task_id@ == c.task_id@ {
                crate::ordering::lemma_lex_antisymmetric(a.task_id@, b.task_id@);
            }
        }
    } else {
        if lex_lt(b.task_id@, c.task_id@) {
        } else {
            crate::ordering::lemma_lex_transitive(a.worker_id@, b.worker_id@, c.worker_id@);
        }
    }
}

fn branch_le_exec(a: &BranchState, b: &BranchState) -> (r: bool)
    ensures
        r == branch_le(*a, *b),
{
    let same = crate::text::str_eq(a.task_id.as_str(), b.task_id.as_str());
    if same {
        crate::ordering::str_le(a.worker_id.as_str(), b.worker_id.as_str())
    } else {
        crate::ordering::str_le(a.task_id.as_str(), b.task_id.as_str())
    }
}

fn copy_branch(b: &BranchState) -> (r: BranchState)
    ensures
        r == *b,
{
    BranchState {
        task_id: b.task_id.clone(),
        worker_id: b.worker_id.clone(),
        status: b.status.clone(),
        stage: b.stage.clone(),
        is_primary: b.is_primary,
    }
}

/// The order of branches: by task, then worker.
pub open spec fn by_task_then_worker() -> spec_fn(BranchState, BranchState) -> bool {
    |a: BranchState, b: BranchState| branch_le(a, b)
}

/// The branches sorted by task, then worker; equal ones keep their order.
pub fn sort_branches(items: &Vec<BranchState>) -> (r: Vec<BranchState>)
    ensures
        r@ == crate::ordering::stable_sort_by(items@, by_task_then_worker()),
        branches_sorted(r@),
        r@.to_multiset() == items@.to_multiset(),
{
    let mut out: Vec<BranchState> = Vec::new();
    let mut k: usize = 0;
    assert(items@.take(0) =~= out@);
    while k < items.len()
        invariant
            k <= items@.len(),
            out@ == crate::ordering::stable_sort_by(items@.take(k as int), by_task_then_worker()),
            branches_sorted(out@),
            out@.to_multiset() == items@.take(k as int).to_multiset(),
        decreases items@.len() - k,
    {
        let x = copy_branch(&items[k]);
        proof {
            assert(items@.take(k + 1) == items@.take(k as int).push(x));
        }
        let ghost before = out@;
        let mut pos: usize = out.len();
        while pos > 0 && !branch_le_exec(&out[pos - 1], &x)
            invariant
                pos <= out@.len(),
                before == out@,
                forall|j: int| pos <= j < out@.len() ==> branch_le(x, #[trigger] out@[j]) && !branch_le(out@[j], x),
            decreases pos,
        {
            proof {
                lemma_branch_le_total(x, out@[pos - 1]);
            }
            pos = pos - 1;
        }
        out.insert(pos, x);
        proof {
            let after = out@;
            assert(after =~= before.insert(pos as int, x));
            assert(items@.take(k + 1).drop_last() == items@.take(k as int));
            assert(items@.take(k + 1).last() == x);
            crate::ordering::lemma_insert_stable_at(before, x, by_task_then_worker(), pos as int);
            assert forall|i: int, j: int| 0 <= i < j < after.len() implies branch_le(#[trigger] after[i], #[trigger] after[j]) by {
                if j < pos {
                    assert(after[i] == before[i] && after[j] == before[j]);
                } else if j == pos {
                    assert(after[i] == before[i]);
                    if i < pos - 1 {
                        lemma_branch_le_transitive(before[i], before[pos - 1], x);
                    }
                } else if i < pos {
                    assert(after[i] == before[i] && after[j] == before[j - 1]);
                } else if i == pos {
                    assert(after[j] == before[j - 1]);
                } else {
                    assert(after[i] == before[i - 1] && after[j] == before[j - 1]);
                }
            }
            vstd::seq_lib::to_multiset_insert(before, pos as int, x);
            items@.take(k as int).to_multiset_ensures();
            assert(items@.take(k as int).push(x).to_multiset() =~= items@.take(k as int).to_multiset().insert(x));
        }
        k = k + 1;
    }
    assert(items@.take(items@.len() as int) == items@);
    out
}

/// The live ids of one kind in a summary: none when they are cleared,
/// else each candidate once, in order.
pub open spec fn live_ids_ok(ids: Seq<String>, candidates: Set<Seq<char>>, cleared: bool) -> bool {
    &&& strictly_sorted(views(ids))
    &&& views(ids).to_set() == if cleared { Set::empty() } else { candidates }
}

fn count_recoverable(branches: &Vec<BranchState>) -> (r: usize)
    ensures
        r == recoverable_count(branches@),
{
    let mut n: usize = 0;
    let mut i: usize = 0;
    while i < branches.len()
        invariant
            i <= branches@.len(),
            n <= i,
            n == recoverable_count(branches@.take(i as int)),
        decreases branches@.len() - i,
    {
        assert(branches@.take(i + 1).drop_last() == branches@.take(i as int));
        assert(branches@.take(i + 1).last() == branches@[i as int]);
        if crate::read_model::branch_is_recoverable(branches[i].status.as_str(), branches[i].stage.as_str()) {
            n = n + 1;
        }
        i = i + 1;
    }
    assert(branches@.take(branches@.len() as int) == branches@);
    n
}

fn push_opt(v: &mut Vec<String>, value: &Option<String>)
    ensures
        views(final(v)@) == views(old(v)@) + opt_seq(opt_string_view(*value)),
{
    let ghost before = views(v@);
    match value {
        Some(x) => {
            v.push(x.clone());
            assert(views(v@) =~= before + seq![x@]);
        },
        None => {
            assert(views(v@) =~= before + Seq::<Seq<char>>::empty());
        },
    }
}

/// `r` is the runtime summary of the session whose sidecar exported `export`.
pub open spec fn is_session_summary_of(r: SessionRuntimeSummary, export: SessionSidecarExport) -> bool {
    &&& r.session_id@ == export.session_id@
    &&& r.current_status@ == sidecar_status_name(export.status)
    &&& r.last_update == export.last_update
    &&& opt_string_view(r.execution_chain_ref) == match export.chain {
        Some(c) => Some(c.execution_chain_ref@),
        None => opt_string_view(export.execution_chain_ref),
    }
    &&& opt_string_view(r.recovery_ref) == match export.chain {
        Some(c) => match opt_string_view(c.recovery_ref) {
            Some(x) => Some(x),
            None => opt_string_view(export.recovery_ref),
        },
        None => opt_string_view(export.recovery_ref),
    }
    &&& opt_string_view(r.mission_id) == match export.chain { Some(c) => Some(c.mission_id@), None => None }
    &&& opt_string_view(r.root_task_id) == match export.chain { Some(c) => Some(c.root_task_id@), None => None }
    &&& opt_string_view(r.root_task_status) == root_status(export)
    &&& r.root_task_created_at == match export.chain {
        Some(c) => match c.root_task { Some((_, t)) => Some(t), None => None },
        None => None,
    }
    &&& r.active_branches@ == match export.chain {
        Some(c) => crate::ordering::stable_sort_by(c.branches@, by_task_then_worker()),
        None => Seq::empty(),
    }
    &&& branches_sorted(r.active_branches@)
    &&& r.active_branches@.to_multiset() == match export.chain {
        Some(c) => c.branches@.to_multiset(),
        None => vstd::multiset::Multiset::empty(),
    }
    &&& r.recoverable_branch_count == summary_recoverable(export)
    &&& r.has_recoverable_chain == (summary_recoverable(export) > 0)
    &&& live_ids_ok(r.active_execution_group_ids@, candidate_ids(chain_group_ids(export), opt_string_view(export.ownership_mission_id), export), ids_cleared(export))
    &&& live_ids_ok(r.active_task_ids@, candidate_ids(chain_task_ids(export), opt_string_view(export.ownership_task_id), export), ids_cleared(export))
    &&& live_ids_ok(r.recovery_ids@, candidate_ids(chain_recovery_ids(export), opt_string_view(export.recovery_ref), export), false)
    &&& match export.current_turn {
        None => r.current_turn is None,
        Some(t) => r.current_turn matches Some(c) && is_turn_summary_of(c, t, r),
    }
    &&& item_views(r.turn_items@) == match export.current_turn {
        Some(t) => turn_item_views(t.items@),
        None => Seq::empty(),
    }
}

/// `c` shows the turn `t` within the summary `r`: the response took from
/// acceptance to completion (none where that would be negative).
pub open spec fn is_turn_summary_of(c: TurnSummary, t: TurnExport, r: SessionRuntimeSummary) -> bool {
    &&& c.turn_id@ == t.turn_id@
    &&& c.turn_seq == t.turn_seq
    &&& c.accepted_at == Some(t.accepted_at)
    &&& c.completed_at == t.completed_at
    &&& c.response_duration_ms == match t.completed_at {
        Some(done) => Some(if done >= t.accepted_at { (done - t.accepted_at) as u64 } else { 0u64 }),
        None => None,
    }
    &&& c.status@ == t.status@
    &&& opt_string_view(c.user_message) == opt_string_view(t.user_message)
    &&& opt_string_view(c.mission_id) == opt_string_view(r.mission_id)
    &&& opt_string_view(c.root_task_id) == opt_string_view(r.root_task_id)
    &&& opt_string_view(c.execution_chain_ref) == opt_string_view(r.execution_chain_ref)
}

/// The runtime summary of a session from its sidecar export.
pub fn session_runtime_summary(export: &SessionSidecarExport) -> (r: SessionRuntimeSummary)
    ensures
        is_session_summary_of(r, *export),
{
    let status = str_to_string(match export.status {
        SessionSidecarStatus::Detached => "detached",
        SessionSidecarStatus::Bound => "bound",
        SessionSidecarStatus::RecoveryLinked => "recovery_linked",
        SessionSidecarStatus::Resumed => "resumed",
    });
    let mut groups: Vec<String> = Vec::new();
    let mut tasks: Vec<String> = Vec::new();
    let mut recoveries: Vec<String> = Vec::new();
    let mut execution_chain_ref = crate::text::copy_opt_string(&export.execution_chain_ref);
    let mut recovery_ref = crate::text::copy_opt_string(&export.recovery_ref);
    let mut mission_id: Option<String> = None;
    let mut root_task_id: Option<String> = None;
    let mut root_task_status: Option<String> = None;
    let mut root_task_created_at: Option<u64> = None;
    let mut active_branches: Vec<BranchState> = Vec::new();
    let mut recoverable_branch_count: usize = 0;
    match &export.chain {
        Some(c) => {
            mission_id = Some(c.mission_id.clone());
            root_task_id = Some(c.root_task_id.clone());
            execution_chain_ref = Some(c.execution_chain_ref.clone());
            recovery_ref = match &c.recovery_ref {
                Some(x) => Some(x.clone()),
                None => crate::text::copy_opt_string(&export.recovery_ref),
            };
            match c.root_task {
                Some((s, t)) => {
                    root_task_status = Some(crate::read_model::task_status_label(s));
                    root_task_created_at = Some(t);
                },
                None => {},
            }
            active_branches = sort_branches(&c.branches);
            if crate::read_model::session_root_task_allows_continue(crate::text::opt_as_str(&root_task_status)) {
                recoverable_branch_count = count_recoverable(&c.branches);
            }
            groups.push(c.mission_id.clone());
            let mut i: usize = 0;
            while i < c.active_branch_task_ids.len()
                invariant
                    i <= c.active_branch_task_ids@.len(),
                    views(tasks@) == views(c.active_branch_task_ids@).take(i as int),
                decreases c.active_branch_task_ids@.len() - i,
            {
                let ghost before = views(tasks@);
                tasks.push(c.active_branch_task_ids[i].clone());
                assert(views(tasks@) =~= before.push(c.active_branch_task_ids@[i as int]@));
                assert(views(c.active_branch_task_ids@).take(i + 1) =~= views(c.active_branch_task_ids@).take(i as int).push(c.active_branch_task_ids@[i as int]@));
                i = i + 1;
            }
            assert(views(c.active_branch_task_ids@).take(c.active_branch_task_ids@.len() as int) == views(c.active_branch_task_ids@));
            push_opt(&mut recoveries, &c.recovery_ref);
        },
        None => {
            proof {
                active_branches@.to_multiset_ensures();
                assert(active_branches@.to_multiset() =~= vstd::multiset::Multiset::empty());
            }
        },
    }
    assert(views(groups@) =~= chain_group_ids(*export));
    assert(views(tasks@) =~= chain_task_ids(*export));
    assert(views(recoveries@) =~= chain_recovery_ids(*export));
    let ghost g0 = views(groups@);
    let ghost t0 = views(tasks@);
    let ghost r0 = views(recoveries@);
    let root_ended = crate::read_model::session_root_task_is_terminal(crate::text::opt_as_str(&root_task_status));
    let active = export.status == SessionSidecarStatus::RecoveryLinked || export.status == SessionSidecarStatus::Resumed;
    if active && !root_ended {
        push_opt(&mut groups, &export.ownership_mission_id);
        push_opt(&mut tasks, &export.ownership_task_id);
        push_opt(&mut recoveries, &export.recovery_ref);
    }
    proof {
        assert forall|x: Seq<char>| views(groups@).to_set().contains(x) == candidate_ids(g0, opt_string_view(export.ownership_mission_id), *export).contains(x) by {
            if views(groups@).to_set().contains(x) {
                let i = choose|i: int| 0 <= i < views(groups@).len() && views(groups@)[i] == x;
                if i >= g0.len() {
                    assert(opt_seq(opt_string_view(export.ownership_mission_id))[i - g0.len()] == x);
                } else {
                    assert(views(groups@)[i] == g0[i]);
                }
            }
            if g0.to_set().contains(x) {
                let i = choose|i: int| 0 <= i < g0.len() && g0[i] == x;
                assert(views(groups@)[i] == x);
            }
            if active && !root_ended && opt_string_view(export.ownership_mission_id) == Some(x) {
                assert(views(groups@)[g0.len() as int] == x);
            }
        }
        assert forall|x: Seq<char>| views(tasks@).to_set().contains(x) == candidate_ids(t0, opt_string_view(export.ownership_task_id), *export).contains(x) by {
            if views(tasks@).to_set().contains(x) {
                let i = choose|i: int| 0 <= i < views(tasks@).len() && views(tasks@)[i] == x;
                if i >= t0.len() {
                    assert(opt_seq(opt_string_view(export.ownership_task_id))[i - t0.len()] == x);
                } else {
                    assert(views(tasks@)[i] == t0[i]);
                }
            }
            if t0.to_set().contains(x) {
                let i = choose|i: int| 0 <= i < t0.len() && t0[i] == x;
                assert(views(tasks@)[i] == x);
            }
            if active && !root_ended && opt_string_view(export.ownership_task_id) == Some(x) {
                assert(views(tasks@)[t0.len() as int] == x);
            }
        }
        assert forall|x: Seq<char>| views(recoveries@).to_set().contains(x) == candidate_ids(r0, opt_string_view(export.recovery_ref), *export).contains(x) by {
            if views(recoveries@).to_set().contains(x) {
                let i = choose|i: int| 0 <= i < views(recoveries@).len() && views(recoveries@)[i] == x;
                if i >= r0.len() {
                    assert(opt_seq(opt_string_view(export.recovery_ref))[i - r0.len()] == x);
                } else {
                    assert(views(recoveries@)[i] == r0[i]);
                }
            }
            if r0.to_set().contains(x) {
                let i = choose|i: int| 0 <= i < r0.len() && r0[i] == x;
                assert(views(recoveries@)[i] == x);
            }
            if active && !root_ended && opt_string_view(export.recovery_ref) == Some(x) {
                assert(views(recoveries@)[r0.len() as int] == x);
            }
        }
        assert(views(groups@).to_set() =~= candidate_ids(g0, opt_string_view(export.ownership_mission_id), *export));
        assert(views(tasks@).to_set() =~= candidate_ids(t0, opt_string_view(export.ownership_task_id), *export));
        assert(views(recoveries@).to_set() =~= candidate_ids(r0, opt_string_view(export.recovery_ref), *export));
    }
    if root_ended && recoverable_branch_count == 0 {
        groups = Vec::new();
        tasks = Vec::new();
        assert(views(groups@).to_set() =~= Set::<Seq<char>>::empty());
        assert(views(tasks@).to_set() =~= Set::<Seq<char>>::empty());
    }
    let active_execution_group_ids = sorted_unique(groups);
    let active_task_ids = sorted_unique(tasks);
    let recovery_ids = sorted_unique(recoveries);
    let current_turn = match &export.current_turn {
        Some(t) => Some(TurnSummary {
            turn_id: t.turn_id.clone(),
            turn_seq: t.turn_seq,
            accepted_at: Some(t.accepted_at),
            completed_at: t.completed_at,
            response_duration_ms: match t.completed_at {
                Some(done) => Some(if done >= t.accepted_at { done - t.accepted_at } else { 0 }),
                None => None,
            },
            status: t.status.clone(),
            user_message: crate::text::copy_opt_string(&t.user_message),
            mission_id: crate::text::copy_opt_string(&mission_id),
            root_task_id: crate::text::copy_opt_string(&root_task_id),
            execution_chain_ref: crate::text::copy_opt_string(&execution_chain_ref),
        }),
        None => None,
    };
    let turn_items = match &export.current_turn {
        Some(t) => turn_item_summaries(&t.items),
        None => {
            let none: Vec<TurnItemSummary> = Vec::new();
            assert(item_views(none@) =~= Seq::empty());
            none
        },
    };
    SessionRuntimeSummary {
        session_id: export.session_id.clone(),
        current_status: status,
        last_update: export.last_update,
        execution_chain_ref,
        recovery_ref,
        mission_id,
        root_task_id,
        root_task_status,
        root_task_created_at,
        active_branches,
        recoverable_branch_count,
        has_recoverable_chain: recoverable_branch_count > 0,
        active_execution_group_ids,
        active_task_ids,
        recovery_ids,
        current_turn,
        turn_items,
    }
}

/// Whether a session's sidecar runs work now (see [`sidecar_active`]).
pub fn session_sidecar_is_runtime_active(status: SessionSidecarStatus) -> (r: bool)
    ensures
        r == sidecar_active(status),
{
    match status {
        SessionSidecarStatus::RecoveryLinked | SessionSidecarStatus::Resumed => true,
        SessionSidecarStatus::Detached | SessionSidecarStatus::Bound => false,
    }
}

/// The status label of a branch's task: the task store's, or `unknown`
/// where the store does not know the task.
pub fn branch_status_label(status: Option<TaskStatus>) -> (r: String)
    ensures
        r@ == match status {
            Some(s) => task_status_name(s),
            None => "unknown"@,
        },
{
    match status {
        Some(s) => crate::read_model::task_status_label(s),
        None => str_to_string("unknown"),
    }
}

/// A chain whose root task completed or was killed is not recoverable, and
/// its summary reports no live group or task.
pub proof fn lemma_finished_root_clears_live_ids(export: SessionSidecarExport)
    requires
        root_status(export) == Some("completed"@) || root_status(export) == Some("killed"@),
    ensures
        summary_recoverable(export) == 0,
        ids_cleared(export),
{
}

/// A sidecar that does not run work (detached or only bound) adds nothing
/// of its ownership to the live ids: they are the chain's alone.
pub proof fn lemma_idle_sidecar_adds_no_ownership(chain_ids: Seq<Seq<char>>, owned: Option<Seq<char>>, export: SessionSidecarExport)
    requires
        !sidecar_active(export.status),
    ensures
        candidate_ids(chain_ids, owned, export) == chain_ids.to_set(),
{
    assert(candidate_ids(chain_ids, owned, export) =~= chain_ids.to_set());
}

} // verus!
