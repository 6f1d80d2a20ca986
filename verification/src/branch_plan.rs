//! Registering the branches of a session's active execution chain: which
//! worker runs them, which lanes the secondary branches get, which earlier
//! branches are dropped, and which turn items announce the new lanes.

use vstd::prelude::*;
use crate::api_error::ApiError;
use crate::text::{concat, decimal, opt_string_view, str_eq, str_to_string, u64_to_decimal, usize_to_decimal};

verus! {

/// A branch to register: its task, and whether it is the primary one.
#[derive(Clone, Debug)]
pub struct BranchSpec {
    pub task_id: String,
    pub is_primary: bool,
}

/// What the task store holds of a branch's task.
#[derive(Clone, Debug)]
pub struct BranchTaskFacts {
    pub mission_id: String,
    pub root_task_id: String,
    /// The role its executor binding targets.
    pub target_role: Option<String>,
    pub title: String,
}

/// What the session's active execution chain holds.
#[derive(Clone, Debug)]
pub struct ChainFacts {
    pub session_id: String,
    pub mission_id: String,
    pub root_task_id: String,
    /// The worker of its first branch.
    pub first_branch_worker: Option<String>,
    /// Its first bound worker.
    pub first_bound_worker: Option<String>,
    pub accepted_at: u64,
    /// The tasks of its current branches.
    pub branch_task_ids: Vec<String>,
}

/// A branch as registered.
#[derive(Clone, Debug)]
pub struct PlannedBranch {
    pub task_id: String,
    pub worker_id: String,
    pub is_primary: bool,
    pub lane_id: Option<String>,
    pub lane_seq: Option<usize>,
    pub role_id: String,
}

/// The lane of a secondary branch.
#[derive(Clone, Debug)]
pub struct PlannedLane {
    pub lane_id: String,
    pub lane_seq: usize,
    pub task_id: String,
    pub worker_id: String,
    pub role_id: String,
    pub title: String,
}

/// The registration of a chain's branches.
#[derive(Clone, Debug)]
pub struct BranchPlan {
    pub worker_id: String,
    /// The tasks of earlier branches that are not registered again.
    pub removed_task_ids: Vec<String>,
    pub branches: Vec<PlannedBranch>,
    pub lanes: Vec<PlannedLane>,
}

/// The worker of the chain's branches: its first branch's, else its first
/// bound worker, else one named after when the chain was accepted.
pub open spec fn chain_worker(chain: ChainFacts) -> Seq<char> {
    match opt_string_view(chain.first_branch_worker) {
        Some(w) => w,
        None => match opt_string_view(chain.first_bound_worker) {
            Some(w) => w,
            None => "worker-session-action-"@ + decimal(chain.accepted_at as nat),
        },
    }
}

/// The role a task's executor binding targets, trimmed, where not blank.
pub open spec fn task_role(facts: BranchTaskFacts) -> Option<Seq<char>> {
    crate::text::non_empty_trimmed(opt_string_view(facts.target_role))
}

/// What is wrong with registering one branch: its task is unknown, or
/// belongs to another chain.
pub open spec fn spec_error(spec: BranchSpec, facts: Option<BranchTaskFacts>, chain: ChainFacts) -> Option<Seq<char>> {
    match facts {
        None => Some("待注册任务不存在: "@ + spec.task_id@),
        Some(f) => if f.mission_id@ != chain.mission_id@ || f.root_task_id@ != chain.root_task_id@ {
            Some("任务 "@ + spec.task_id@ + " 不属于当前执行链"@)
        } else {
            None
        },
    }
}

/// The first problem among the branches to register, in order.
pub open spec fn first_spec_error(specs: Seq<BranchSpec>, facts: Seq<Option<BranchTaskFacts>>, chain: ChainFacts) -> Option<Seq<char>>
    decreases specs.len(),
{
    if specs.len() == 0 || facts.len() == 0 {
        None
    } else if spec_error(specs[0], facts[0], chain) is Some {
        spec_error(specs[0], facts[0], chain)
    } else {
        first_spec_error(specs.drop_first(), facts.drop_first(), chain)
    }
}

/// Every task up to the first problem declares the role it runs as (the
/// registration stops on a task that does not).
pub open spec fn roles_declared(specs: Seq<BranchSpec>, facts: Seq<Option<BranchTaskFacts>>, chain: ChainFacts) -> bool
    decreases specs.len(),
{
    if specs.len() == 0 || facts.len() == 0 {
        true
    } else if spec_error(specs[0], facts[0], chain) is Some {
        true
    } else {
        task_role(facts[0]->0) is Some && roles_declared(specs.drop_first(), facts.drop_first(), chain)
    }
}

/// The number of secondary branches among the first `i`.
pub open spec fn secondary_before(specs: Seq<BranchSpec>, i: int) -> nat
    decreases i,
{
    if i <= 0 {
        0
    } else {
        secondary_before(specs, i - 1) + if specs[i - 1].is_primary { 0nat } else { 1nat }
    }
}

/// `branches` and `lanes` register `specs` with `worker`: one branch per
/// spec, in order; a secondary branch gets the next lane, numbered from 1,
/// named after its task.
pub open spec fn is_registration_of(
    branches: Seq<PlannedBranch>,
    lanes: Seq<PlannedLane>,
    specs: Seq<BranchSpec>,
    facts: Seq<Option<BranchTaskFacts>>,
    worker: Seq<char>,
) -> bool {
    &&& branches.len() == specs.len()
    &&& lanes.len() == secondary_before(specs, specs.len() as int)
    &&& forall|i: int| 0 <= i < specs.len() ==> {
        let b = #[trigger] branches[i];
        &&& b.task_id@ == specs[i].task_id@
        &&& b.worker_id@ == worker
        &&& b.is_primary == specs[i].is_primary
        &&& Some(b.role_id@) == task_role(facts[i]->0)
        &&& if specs[i].is_primary {
            b.lane_id is None && b.lane_seq is None
        } else {
            &&& b.lane_seq == Some((secondary_before(specs, i) + 1) as usize)
            &&& opt_string_view(b.lane_id) == Some("lane-"@ + specs[i].task_id@)
            &&& {
                let l = lanes[secondary_before(specs, i) as int];
                &&& l.lane_id@ == "lane-"@ + specs[i].task_id@
                &&& l.lane_seq == secondary_before(specs, i) + 1
                &&& l.task_id@ == specs[i].task_id@
                &&& l.worker_id@ == worker
                &&& l.role_id@ == b.role_id@
                &&& l.title@ == facts[i]->0.title@
            }
        }
    }
}

/// The ids of a list of strings.
pub open spec fn id_set(v: Seq<String>) -> Set<Seq<char>> {
    Set::new(|s: Seq<char>| exists|i: int| 0 <= i < v.len() && (#[trigger] v[i])@ == s)
}

pub open spec fn spec_ids(specs: Seq<BranchSpec>) -> Set<Seq<char>> {
    Set::new(|s: Seq<char>| exists|i: int| 0 <= i < specs.len() && (#[trigger] specs[i]).task_id@ == s)
}

fn spec_ids_contain(specs: &Vec<BranchSpec>, id: &str) -> (r: bool)
    ensures
        r == spec_ids(specs@).contains(id@),
{
    let mut i: usize = 0;
    while i < specs.len()
        invariant
            i <= specs@.len(),
            forall|k: int| 0 <= k < i ==> (#[trigger] specs@[k]).task_id@ != id@,
        decreases specs@.len() - i,
    {
        if str_eq(specs[i].task_id.as_str(), id) {
            assert(specs@[i as int].task_id@ == id@);
            return true;
        }
        i = i + 1;
    }
    false
}

/// The worker of the chain's branches (see [`chain_worker`]).
pub fn chain_worker_id(chain: &ChainFacts) -> (r: String)
    ensures
        r@ == chain_worker(*chain),
{
    match &chain.first_branch_worker {
        Some(w) => w.clone(),
        None => match &chain.first_bound_worker {
            Some(w) => w.clone(),
            None => concat("worker-session-action-", u64_to_decimal(chain.accepted_at).as_str()),
        },
    }
}

/// Plans the registration of a session's branches on its active chain.
/// No branches: nothing to do. Refused where the session has no active
/// chain, where the chain belongs to another session, and at the first
/// branch whose task is unknown or belongs elsewhere.
pub fn plan_execution_branches(
    session_id: &str,
    specs: &Vec<BranchSpec>,
    facts: &Vec<Option<BranchTaskFacts>>,
    chain: &Option<ChainFacts>,
) -> (r: Result<Option<BranchPlan>, ApiError>)
    requires
        facts@.len() == specs@.len(),
        chain matches Some(c) ==> roles_declared(specs@, facts@, *c),
    ensures
        specs@.len() == 0 ==> r matches Ok(None),
        specs@.len() > 0 ==> match chain {
            None => r matches Err(ApiError::InvalidInput(m)) && m@ == "当前会话没有可注册任务的活跃执行链"@,
            Some(c) => if c.session_id@ != session_id@ {
                r matches Err(ApiError::InvalidInput(m)) && m@ == "活跃执行链不属于当前会话"@
            } else {
                match first_spec_error(specs@, facts@, *c) {
                    Some(m) => r matches Err(ApiError::InvalidInput(msg)) && msg@ == m,
                    None => r matches Ok(Some(plan)) && {
                        &&& plan.worker_id@ == chain_worker(*c)
                        &&& is_registration_of(plan.branches@, plan.lanes@, specs@, facts@, chain_worker(*c))
                        &&& id_set(plan.removed_task_ids@) == id_set(c.branch_task_ids@).difference(spec_ids(specs@))
                    },
                }
            },
        },
{
    if specs.len() == 0 {
        return Ok(None);
    }
    let c = match chain {
        Some(c) => c,
        None => {
            return Err(ApiError::invalid_input("当前会话没有可注册任务的活跃执行链"));
        },
    };
    if !str_eq(c.session_id.as_str(), session_id) {
        return Err(ApiError::invalid_input("活跃执行链不属于当前会话"));
    }
    let worker_id = chain_worker_id(c);
    let mut removed_task_ids: Vec<String> = Vec::new();
    let mut k: usize = 0;
    while k < c.branch_task_ids.len()
        invariant
            k <= c.branch_task_ids@.len(),
            id_set(removed_task_ids@) == id_set(c.branch_task_ids@.take(k as int)).difference(spec_ids(specs@)),
        decreases c.branch_task_ids@.len() - k,
    {
        let ghost before = removed_task_ids@;
        let id = &c.branch_task_ids[k];
        let kept = spec_ids_contain(specs, id.as_str());
        if !kept {
            removed_task_ids.push(id.clone());
        }
        proof {
            let t = c.branch_task_ids@.take(k as int);
            let t1 = c.branch_task_ids@.take(k + 1);
            assert(t1 == t.push(*id));
            assert(id_set(removed_task_ids@) =~= id_set(t1).difference(spec_ids(specs@))) by {
                assert forall|s: Seq<char>| id_set(removed_task_ids@).contains(s) implies id_set(t1).difference(spec_ids(specs@)).contains(s) by {
                    let i = choose|i: int| 0 <= i < removed_task_ids@.len() && (#[trigger] removed_task_ids@[i])@ == s;
                    if i < before.len() {
                        assert(removed_task_ids@[i] == before[i]);
                        assert(id_set(before).contains(s));
                        let j = choose|j: int| 0 <= j < t.len() && (#[trigger] t[j])@ == s;
                        assert(t1[j] == t[j]);
                    } else {
                        assert(t1[k as int]@ == s);
                    }
                }
                assert forall|s: Seq<char>| id_set(t1).difference(spec_ids(specs@)).contains(s) implies id_set(removed_task_ids@).contains(s) by {
                    let j = choose|j: int| 0 <= j < t1.len() && (#[trigger] t1[j])@ == s;
                    if j < k {
                        assert(t[j] == t1[j]);
                        assert(id_set(t).contains(s));
                        assert(id_set(before).contains(s));
                        let i = choose|i: int| 0 <= i < before.len() && (#[trigger] before[i])@ == s;
                        assert(removed_task_ids@[i] == before[i]);
                    } else {
                        assert(s == id@);
                        assert(removed_task_ids@[before.len() as int]@ == s);
                    }
                }
            }
        }
        k = k + 1;
    }
    assert(c.branch_task_ids@.take(c.branch_task_ids@.len() as int) == c.branch_task_ids@);
    let mut branches: Vec<PlannedBranch> = Vec::new();
    let mut lanes: Vec<PlannedLane> = Vec::new();
    let mut appended: usize = 0;
    let mut i: usize = 0;
    assert(specs@.skip(0) == specs@ && facts@.skip(0) == facts@);
    while i < specs.len()
        invariant
            i <= specs@.len(),
            facts@.len() == specs@.len(),
            specs@.len() > 0,
            *chain == Some(*c),
            c.session_id@ == session_id@,
            worker_id@ == chain_worker(*c),
            appended == secondary_before(specs@, i as int),
            appended <= i,
            first_spec_error(specs@, facts@, *c) == first_spec_error(specs@.skip(i as int), facts@.skip(i as int), *c),
            roles_declared(specs@.skip(i as int), facts@.skip(i as int), *c),
            forall|j: int| 0 <= j < i ==> spec_error(specs@[j], facts@[j], *c) is None,
            is_registration_of(branches@, lanes@, specs@.take(i as int), facts@.take(i as int), worker_id@),
        decreases specs@.len() - i,
    {
        let ghost rest_s = specs@.skip(i as int);
        let ghost rest_f = facts@.skip(i as int);
        assert(rest_s[0] == specs@[i as int] && rest_f[0] == facts@[i as int]);
        assert(rest_s.drop_first() == specs@.skip(i + 1) && rest_f.drop_first() == facts@.skip(i + 1));
        let spec = &specs[i];
        let f = match &facts[i] {
            None => {
                let msg = concat("待注册任务不存在: ", spec.task_id.as_str());
                return Err(ApiError::InvalidInput(msg));
            },
            Some(f) => f,
        };
        if !str_eq(f.mission_id.as_str(), c.mission_id.as_str()) || !str_eq(f.root_task_id.as_str(), c.root_task_id.as_str()) {
            let mut msg = concat("任务 ", spec.task_id.as_str());
            msg.append(" 不属于当前执行链");
            return Err(ApiError::InvalidInput(msg));
        }
        let role_id = match crate::text::trimmed_non_empty(crate::text::opt_as_str(&f.target_role)) {
            Some(r) => r,
            None => {
                assert(false);
                str_to_string("")
            },
        };
        let ghost old_branches = branches@;
        let ghost old_lanes = lanes@;
        let (lane_id, lane_seq) = if spec.is_primary {
            (None, None)
        } else {
            let seq = appended + 1;
            appended = appended + 1;
            let lane_id = concat("lane-", spec.task_id.as_str());
            lanes.push(PlannedLane {
                lane_id: lane_id.clone(),
                lane_seq: seq,
                task_id: spec.task_id.clone(),
                worker_id: worker_id.clone(),
                role_id: role_id.clone(),
                title: f.title.clone(),
            });
            (Some(lane_id), Some(seq))
        };
        branches.push(PlannedBranch {
            task_id: spec.task_id.clone(),
            worker_id: worker_id.clone(),
            is_primary: spec.is_primary,
            lane_id,
            lane_seq,
            role_id,
        });
        proof {
            let s1 = specs@.take(i + 1);
            let f1 = facts@.take(i + 1);
            assert(s1.take(i as int) == specs@.take(i as int));
            assert forall|j: int| 0 <= j <= i implies secondary_before(s1, j) == secondary_before(specs@, j) by {
                lemma_secondary_prefix(specs@, i + 1, j);
            }
            assert(secondary_before(specs@, i + 1) == secondary_before(specs@, i as int) + if specs@[i as int].is_primary { 0nat } else { 1nat });
            lemma_secondary_prefix(specs@, i + 1, i + 1);
            lemma_secondary_prefix(specs@, i as int, i as int);
            assert(old_lanes.len() == secondary_before(specs@, i as int));
            assert(lanes@.len() == secondary_before(s1, s1.len() as int));
            assert(branches@.len() == s1.len());
            assert forall|j: int| 0 <= j < s1.len() implies {
                let b = #[trigger] branches@[j];
                &&& b.task_id@ == s1[j].task_id@
                &&& b.worker_id@ == worker_id@
                &&& b.is_primary == s1[j].is_primary
                &&& Some(b.role_id@) == task_role(f1[j]->0)
                &&& if s1[j].is_primary {
                    b.lane_id is None && b.lane_seq is None
                } else {
                    &&& b.lane_seq == Some((secondary_before(s1, j) + 1) as usize)
                    &&& opt_string_view(b.lane_id) == Some("lane-"@ + s1[j].task_id@)
                    &&& {
                        let l = lanes@[secondary_before(s1, j) as int];
                        &&& l.lane_id@ == "lane-"@ + s1[j].task_id@
                        &&& l.lane_seq == secondary_before(s1, j) + 1
                        &&& l.task_id@ == s1[j].task_id@
                        &&& l.worker_id@ == worker_id@
                        &&& l.role_id@ == b.role_id@
                        &&& l.title@ == f1[j]->0.title@
                    }
                }
            } by {
                lemma_secondary_prefix(specs@, i + 1, j);
                if j < i {
                    let st = specs@.take(i as int);
                    let ft = facts@.take(i as int);
                    assert(branches@[j] == old_branches[j]);
                    assert(s1[j] == st[j]);
                    assert(f1[j] == ft[j]);
                    lemma_secondary_prefix(specs@, i as int, j);
                    lemma_secondary_prefix(specs@, i as int, i as int);
                    if !s1[j].is_primary {
                        lemma_secondary_monotone(specs@, j + 1, i as int);
                        assert(secondary_before(specs@, j + 1) == secondary_before(specs@, j) + 1);
                        assert(secondary_before(s1, j) < old_lanes.len());
                        assert(lanes@[secondary_before(s1, j) as int] == old_lanes[secondary_before(s1, j) as int]);
                    }
                } else {
                    lemma_secondary_prefix(specs@, i as int, i as int);
                    assert(s1[j] == specs@[i as int]);
                    assert(f1[j] == facts@[i as int]);
                }
            }
        }
        i = i + 1;
    }
    assert(specs@.take(specs@.len() as int) == specs@);
    assert(facts@.take(facts@.len() as int) == facts@);
    assert(first_spec_error(specs@.skip(specs@.len() as int), facts@.skip(specs@.len() as int), *c) is None);
    Ok(Some(BranchPlan { worker_id, removed_task_ids, branches, lanes }))
}

pub proof fn lemma_secondary_prefix(specs: Seq<BranchSpec>, n: int, j: int)
    requires
        0 <= j <= n <= specs.len(),
    ensures
        secondary_before(specs.take(n), j) == secondary_before(specs, j),
    decreases j,
{
    if j > 0 {
        lemma_secondary_prefix(specs, n, j - 1);
        assert(specs.take(n)[j - 1] == specs[j - 1]);
    }
}

pub proof fn lemma_secondary_monotone(specs: Seq<BranchSpec>, a: int, b: int)
    requires
        0 <= a <= b <= specs.len(),
    ensures
        secondary_before(specs, a) <= secondary_before(specs, b),
    decreases b - a,
{
    if a < b {
        lemma_secondary_monotone(specs, a, b - 1);
    }
}

/// What the turn holds of one of its items.
#[derive(Clone, Debug)]
pub struct TurnItemFacts {
    pub kind: String,
    pub task_id: Option<String>,
    pub item_seq: u64,
}

/// A turn item that announces a new lane.
#[derive(Clone, Debug)]
pub struct SpawnedItem {
    pub item_id: String,
    pub item_seq: u64,
    pub lane_id: String,
    pub lane_seq: usize,
    pub task_id: String,
    pub worker_id: String,
    pub role_id: String,
    pub title: String,
    pub content: String,
    pub source_thread_id: String,
}

/// An item stays unless it announces a lane of a task that is no longer
/// registered.
pub open spec fn item_kept(item: TurnItemFacts, specs: Seq<BranchSpec>) -> bool {
    item.kind@ != "worker_spawned"@ || (opt_string_view(item.task_id) matches Some(t) && spec_ids(specs).contains(t))
}

/// The items that stay, in order.
pub open spec fn kept_items(items: Seq<TurnItemFacts>, specs: Seq<BranchSpec>) -> Seq<TurnItemFacts> {
    items.filter(|item: TurnItemFacts| item_kept(item, specs))
}

/// The largest item number among the items, 0 for none.
pub open spec fn max_seq(items: Seq<TurnItemFacts>) -> u64
    decreases items.len(),
{
    if items.len() == 0 {
        0
    } else if items.last().item_seq > max_seq(items.drop_last()) {
        items.last().item_seq
    } else {
        max_seq(items.drop_last())
    }
}

/// The turn holds an announcement of `task`.
pub open spec fn announces(items: Seq<TurnItemFacts>, spawned: Seq<SpawnedItem>, task: Seq<char>) -> bool {
    (exists|i: int| 0 <= i < items.len() && (#[trigger] items[i]).kind@ == "worker_spawned"@
        && opt_string_view(items[i].task_id) == Some(task))
        || (exists|i: int| 0 <= i < spawned.len() && (#[trigger] spawned[i]).task_id@ == task)
}

fn saturating_next(v: u64) -> (r: u64)
    ensures
        r == if v == u64::MAX { u64::MAX as int } else { v + 1 },
{
    if v == u64::MAX {
        v
    } else {
        v + 1
    }
}

/// The turn's items once the registered branches' lanes are in: which
/// existing items stay, and the announcements of the lanes that had none,
/// numbered on from the largest item number that stays. Every lane is
/// announced afterwards.
pub fn plan_turn_items(
    items: &Vec<TurnItemFacts>,
    specs: &Vec<BranchSpec>,
    lanes: &Vec<PlannedLane>,
    lane_threads: &Vec<String>,
    now: u64,
) -> (r: (Vec<bool>, Vec<SpawnedItem>))
    requires
        lane_threads@.len() == lanes@.len(),
    ensures
        r.0@.len() == items@.len(),
        forall|i: int| 0 <= i < items@.len() ==> #[trigger] r.0@[i] == item_kept(items@[i], specs@),
        forall|j: int| 0 <= j < lanes@.len() ==> announces(kept_items(items@, specs@), r.1@, (#[trigger] lanes@[j]).task_id@),
        forall|k: int| 0 <= k < r.1@.len() ==> {
            let s = #[trigger] r.1@[k];
            &&& s.item_seq >= max_seq(kept_items(items@, specs@))
            &&& s.item_seq > max_seq(kept_items(items@, specs@)) || s.item_seq == u64::MAX
            &&& (exists|j: int| 0 <= j < lanes@.len() && lanes@[j].task_id@ == s.task_id@
                && lanes@[j].lane_id@ == s.lane_id@ && lanes@[j].lane_seq == s.lane_seq
                && lanes@[j].worker_id@ == s.worker_id@ && lanes@[j].role_id@ == s.role_id@
                && lanes@[j].title@ == s.title@ && lane_threads@[j]@ == s.source_thread_id@
                && s.content@ == "已为 "@ + lanes@[j].title@ + " 创建执行步骤。"@
                && s.item_id@ == "turn-item-worker-spawned-"@ + decimal(now as nat) + "-"@ + decimal(lanes@[j].lane_seq as nat))
        },
        forall|a: int, b: int| 0 <= a < b < r.1@.len() ==> (#[trigger] r.1@[a]).item_seq < (#[trigger] r.1@[b]).item_seq
            || r.1@[b].item_seq == u64::MAX,
{
    let ghost keep_fn = |item: TurnItemFacts| item_kept(item, specs@);
    let mut keep: Vec<bool> = Vec::new();
    let mut kept: Vec<TurnItemFacts> = Vec::new();
    let mut max: u64 = 0;
    let mut i: usize = 0;
    assert(items@.take(0).filter(keep_fn) =~= Seq::<TurnItemFacts>::empty()) by {
        reveal(Seq::filter);
    }
    while i < items.len()
        invariant
            i <= items@.len(),
            forall|x: TurnItemFacts| #[trigger] keep_fn(x) == item_kept(x, specs@),
            keep@.len() == i,
            forall|k: int| 0 <= k < i ==> #[trigger] keep@[k] == item_kept(items@[k], specs@),
            kept@ == items@.take(i as int).filter(keep_fn),
            max == max_seq(kept@),
        decreases items@.len() - i,
    {
        let item = &items[i];
        proof {
            reveal(Seq::filter);
            assert(items@.take(i + 1).drop_last() == items@.take(i as int));
            assert(items@.take(i + 1).last() == items@[i as int]);
        }
        let k = !str_eq(item.kind.as_str(), "worker_spawned") || match &item.task_id {
            Some(t) => spec_ids_contain(specs, t.as_str()),
            None => false,
        };
        keep.push(k);
        if k {
            let ghost before = kept@;
            kept.push(TurnItemFacts {
                kind: item.kind.clone(),
                task_id: crate::text::copy_opt_string(&item.task_id),
                item_seq: item.item_seq,
            });
            proof {
                assert(kept@.drop_last() == before);
                assert(kept@.last() == items@[i as int]);
            }
            if item.item_seq > max {
                max = item.item_seq;
            }
        }
        i = i + 1;
    }
    assert(items@.take(items@.len() as int) == items@);
    assert(kept@ == kept_items(items@, specs@));
    let ghost base = max;
    let mut next = saturating_next(max);
    let mut spawned: Vec<SpawnedItem> = Vec::new();
    let mut j: usize = 0;
    while j < lanes.len()
        invariant
            j <= lanes@.len(),
            lane_threads@.len() == lanes@.len(),
            kept@ == kept_items(items@, specs@),
            base == max_seq(kept@),
            next > base || next == u64::MAX,
            forall|k: int| 0 <= k < spawned@.len() ==> (#[trigger] spawned@[k]).item_seq < next || next == u64::MAX,
            forall|k: int| 0 <= k < spawned@.len() ==> {
                let s = #[trigger] spawned@[k];
                &&& s.item_seq >= base
                &&& s.item_seq > base || s.item_seq == u64::MAX
                &&& (exists|m: int| 0 <= m < lanes@.len() && lanes@[m].task_id@ == s.task_id@
                    && lanes@[m].lane_id@ == s.lane_id@ && lanes@[m].lane_seq == s.lane_seq
                    && lanes@[m].worker_id@ == s.worker_id@ && lanes@[m].role_id@ == s.role_id@
                    && lanes@[m].title@ == s.title@ && lane_threads@[m]@ == s.source_thread_id@
                    && s.content@ == "已为 "@ + lanes@[m].title@ + " 创建执行步骤。"@
                    && s.item_id@ == "turn-item-worker-spawned-"@ + decimal(now as nat) + "-"@ + decimal(lanes@[m].lane_seq as nat))
            },
            forall|a: int, b: int| 0 <= a < b < spawned@.len() ==> (#[trigger] spawned@[a]).item_seq < (#[trigger] spawned@[b]).item_seq
                || spawned@[b].item_seq == u64::MAX,
            forall|m: int| 0 <= m < j ==> announces(kept@, spawned@, (#[trigger] lanes@[m]).task_id@),
        decreases lanes@.len() - j,
    {
        let lane = &lanes[j];
        let mut already = false;
        let mut a: usize = 0;
        while a < kept.len()
            invariant
                a <= kept@.len(),
                already ==> exists|x: int| 0 <= x < kept@.len() && (#[trigger] kept@[x]).kind@ == "worker_spawned"@
                    && opt_string_view(kept@[x].task_id) == Some(lane.task_id@),
            decreases kept@.len() - a,
        {
            if str_eq(kept[a].kind.as_str(), "worker_spawned") && crate::text::opt_str_eq(&kept[a].task_id, lane.task_id.as_str()) {
                already = true;
            }
            a = a + 1;
        }
        let mut b: usize = 0;
        while b < spawned.len()
            invariant
                b <= spawned@.len(),
                already ==> announces(kept@, spawned@, lane.task_id@),
            decreases spawned@.len() - b,
        {
            if str_eq(spawned[b].task_id.as_str(), lane.task_id.as_str()) {
                assert(spawned@[b as int].task_id@ == lane.task_id@);
                already = true;
            }
            b = b + 1;
        }
        if !already {
            let ghost before = spawned@;
            let mut item_id = concat("turn-item-worker-spawned-", u64_to_decimal(now).as_str());
            item_id.append("-");
            item_id.append(usize_to_decimal(lane.lane_seq).as_str());
            let mut content = concat("已为 ", lane.title.as_str());
            content.append(" 创建执行步骤。");
            spawned.push(SpawnedItem {
                item_id,
                item_seq: next,
                lane_id: lane.lane_id.clone(),
                lane_seq: lane.lane_seq,
                task_id: lane.task_id.clone(),
                worker_id: lane.worker_id.clone(),
                role_id: lane.role_id.clone(),
                title: lane.title.clone(),
                content,
                source_thread_id: lane_threads[j].clone(),
            });
            proof {
                assert(spawned@[before.len() as int].task_id@ == lane.task_id@);
                assert forall|k: int| 0 <= k < spawned@.len() implies {
                    let s = #[trigger] spawned@[k];
                    &&& s.item_seq >= base
                    &&& s.item_seq > base || s.item_seq == u64::MAX
                    &&& (exists|m: int| 0 <= m < lanes@.len() && lanes@[m].task_id@ == s.task_id@
                        && lanes@[m].lane_id@ == s.lane_id@ && lanes@[m].lane_seq == s.lane_seq
                        && lanes@[m].worker_id@ == s.worker_id@ && lanes@[m].role_id@ == s.role_id@
                        && lanes@[m].title@ == s.title@ && lane_threads@[m]@ == s.source_thread_id@
                        && s.content@ == "已为 "@ + lanes@[m].title@ + " 创建执行步骤。"@
                        && s.item_id@ == "turn-item-worker-spawned-"@ + decimal(now as nat) + "-"@ + decimal(lanes@[m].lane_seq as nat))
                } by {
                    if k < before.len() {
                        assert(spawned@[k] == before[k]);
                    } else {
                        assert(lanes@[j as int] == *lane);
                    }
                }
                assert forall|m: int| 0 <= m < j implies announces(kept@, spawned@, (#[trigger] lanes@[m]).task_id@) by {
                    assert(announces(kept@, before, lanes@[m].task_id@));
                    if exists|i: int| 0 <= i < before.len() && (#[trigger] before[i]).task_id@ == lanes@[m].task_id@ {
                        let i = choose|i: int| 0 <= i < before.len() && (#[trigger] before[i]).task_id@ == lanes@[m].task_id@;
                        assert(spawned@[i] == before[i]);
                    }
                }
                assert forall|a: int, b: int| 0 <= a < b < spawned@.len() implies (#[trigger] spawned@[a]).item_seq < (#[trigger] spawned@[b]).item_seq
                    || spawned@[b].item_seq == u64::MAX by {
                    if b < before.len() {
                        assert(spawned@[a] == before[a] && spawned@[b] == before[b]);
                    } else {
                        assert(spawned@[a] == before[a]);
                    }
                }
            }
            next = saturating_next(next);
        }
        j = j + 1;
    }
    (keep, spawned)
}


/// The branches of a replanned chain: its primary action first, then each
/// leaf action as a secondary branch, in order.
pub fn replanned_branch_specs(primary_action_task_id: &str, leaf_action_task_ids: &Vec<String>) -> (r: Vec<BranchSpec>)
    ensures
        r@.len() == leaf_action_task_ids@.len() + 1,
        r@[0].task_id@ == primary_action_task_id@ && r@[0].is_primary,
        forall|i: int| 0 <= i < leaf_action_task_ids@.len() ==> (#[trigger] r@[i + 1]).task_id@ == leaf_action_task_ids@[i]@
            && !r@[i + 1].is_primary,
{
    let mut specs: Vec<BranchSpec> = Vec::new();
    specs.push(BranchSpec { task_id: str_to_string(primary_action_task_id), is_primary: true });
    let mut i: usize = 0;
    while i < leaf_action_task_ids.len()
        invariant
            i <= leaf_action_task_ids@.len(),
            specs@.len() == i + 1,
            specs@[0].task_id@ == primary_action_task_id@ && specs@[0].is_primary,
            forall|k: int| 0 <= k < i ==> (#[trigger] specs@[k + 1]).task_id@ == leaf_action_task_ids@[k]@
                && !specs@[k + 1].is_primary,
        decreases leaf_action_task_ids@.len() - i,
    {
        specs.push(BranchSpec { task_id: leaf_action_task_ids[i].clone(), is_primary: false });
        i = i + 1;
    }
    specs
}

} // verus!
