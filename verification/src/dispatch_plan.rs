//! The plan of a dispatch submission: the ids it is filed under, the
//! execution plans it registers, the branches of its chain, and the turn
//! that shows it — the user's message, then one lane per worker step.

use vstd::prelude::*;
use crate::api_error::ApiError;
use crate::recovery_read_model::first_index;
use crate::text::{concat, decimal, non_empty_trimmed, opt_str_view, opt_string_view, str_to_string, u64_to_decimal, usize_to_decimal};

verus! {

/// The goal of a dispatch, trimmed; a dispatch without one is refused.
pub fn dispatch_execution_goal(execution_goal: Option<&str>) -> (r: Result<String, ApiError>)
    ensures
        match r {
            Ok(goal) => non_empty_trimmed(opt_str_view(execution_goal)) == Some(goal@),
            Err(e) => non_empty_trimmed(opt_str_view(execution_goal)) is None
                && (e matches ApiError::InvalidInput(m) && m@ == "任务派发必须提供非空 execution_goal"@),
        },
{
    match crate::text::trimmed_non_empty(execution_goal) {
        Some(goal) => Ok(goal),
        None => Err(ApiError::invalid_input("任务派发必须提供非空 execution_goal")),
    }
}

/// The ids a dispatch accepted at one time is filed under.
#[derive(Clone, Debug)]
pub struct DispatchIds {
    /// The mission a session without one gets.
    pub default_mission_id: String,
    pub worker_id: String,
    pub objective_task_id: String,
    pub action_task_id: String,
    pub execution_chain_ref: String,
    pub turn_id: String,
}

/// Each id is its kind's prefix followed by the time the dispatch was
/// accepted.
pub open spec fn dispatch_ids_for(ids: DispatchIds, accepted_at: u64) -> bool {
    let t = decimal(accepted_at as nat);
    &&& ids.default_mission_id@ == "mission-session-action-"@ + t
    &&& ids.worker_id@ == "worker-session-action-"@ + t
    &&& ids.objective_task_id@ == "task-obj-"@ + t
    &&& ids.action_task_id@ == "task-act-"@ + t
    &&& ids.execution_chain_ref@ == "session-action-chain-"@ + t
    &&& ids.turn_id@ == "turn-session-action-"@ + t
}

/// The ids of a dispatch accepted at `accepted_at`.
pub fn dispatch_ids(accepted_at: u64) -> (r: DispatchIds)
    ensures
        dispatch_ids_for(r, accepted_at),
{
    let t = u64_to_decimal(accepted_at);
    DispatchIds {
        default_mission_id: concat("mission-session-action-", t.as_str()),
        worker_id: concat("worker-session-action-", t.as_str()),
        objective_task_id: concat("task-obj-", t.as_str()),
        action_task_id: concat("task-act-", t.as_str()),
        execution_chain_ref: concat("session-action-chain-", t.as_str()),
        turn_id: concat("turn-session-action-", t.as_str()),
    }
}

/// What the dispatch request carries into its turn.
#[derive(Clone, Debug)]
pub struct DispatchRequestFacts {
    pub accepted_at: u64,
    pub entry_id: String,
    pub trimmed_text: Option<String>,
    pub request_id: Option<String>,
    pub user_message_id: Option<String>,
    pub placeholder_message_id: Option<String>,
}

/// A worker step of the task graph: its task, the role its executor
/// binding targets, its title where the store has the task, and the thread
/// its role runs on.
#[derive(Clone, Debug)]
pub struct DispatchStep {
    pub task_id: String,
    pub target_role: Option<String>,
    pub title: Option<String>,
    pub thread_id: String,
}

/// An execution plan the dispatch registers.
#[derive(Clone, Debug)]
pub struct DispatchRegistration {
    pub task_id: String,
    pub is_primary: bool,
    pub lane_id: Option<String>,
    pub lane_seq: Option<usize>,
    pub thread_id: String,
}

/// A worker lane of the turn.
#[derive(Clone, Debug)]
pub struct DispatchLane {
    pub lane_id: String,
    pub lane_seq: usize,
    pub task_id: String,
    pub worker_id: String,
    pub role_id: String,
    pub thread_id: String,
    pub title: String,
}

/// An item of the turn.
#[derive(Clone, Debug)]
pub struct DispatchTurnItem {
    pub item_id: String,
    pub item_seq: usize,
    pub lane_id: Option<String>,
    pub lane_seq: Option<usize>,
    pub kind: String,
    pub status: String,
    pub source: String,
    pub title: Option<String>,
    pub content: Option<String>,
    pub task_id: Option<String>,
    pub worker_id: Option<String>,
    pub role_id: Option<String>,
    pub request_id: Option<String>,
    pub user_message_id: Option<String>,
    pub placeholder_message_id: Option<String>,
    pub timeline_entry_id: Option<String>,
    pub source_thread_id: String,
}

/// The registrations, branch order and turn of a dispatch.
#[derive(Clone, Debug)]
pub struct DispatchTurnPlan {
    pub registrations: Vec<DispatchRegistration>,
    pub lanes: Vec<DispatchLane>,
    pub items: Vec<DispatchTurnItem>,
}

pub open spec fn step_role(step: DispatchStep) -> Option<Seq<char>> {
    non_empty_trimmed(opt_string_view(step.target_role))
}

/// Every worker step declares the role it runs as.
pub open spec fn roles_declared(steps: Seq<DispatchStep>) -> bool {
    forall|i: int| 0 <= i < steps.len() ==> (#[trigger] step_role(steps[i])) is Some
}

pub open spec fn step_title(step: DispatchStep) -> Seq<char> {
    match opt_string_view(step.title) {
        Some(t) => t,
        None => step.task_id@,
    }
}

pub open spec fn step_ids(steps: Seq<DispatchStep>) -> Seq<Seq<char>> {
    steps.map_values(|s: DispatchStep| s.task_id@)
}

/// The position of the first step of the same task as step `i`.
pub open spec fn first_step(steps: Seq<DispatchStep>, i: int) -> int {
    first_index(step_ids(steps), steps[i].task_id@)
}

pub open spec fn lane_name(task_id: Seq<char>) -> Seq<char> {
    "lane-"@ + task_id
}

/// The turn of a dispatch: the user's message first; then, per worker
/// step, its lane (numbered from 1) and the item that announces it; the
/// primary action runs on the orchestrator's thread, each step on its own.
pub open spec fn is_dispatch_turn(
    plan: DispatchTurnPlan,
    request: DispatchRequestFacts,
    ids: DispatchIds,
    orchestrator_thread_id: Seq<char>,
    steps: Seq<DispatchStep>,
) -> bool {
    let t = decimal(request.accepted_at as nat);
    let regs = plan.registrations@;
    let lanes = plan.lanes@;
    let items = plan.items@;
    &&& regs.len() == steps.len() + 1
    &&& lanes.len() == steps.len()
    &&& items.len() == steps.len() + 1
    &&& regs[0].task_id@ == ids.action_task_id@
    &&& regs[0].is_primary
    &&& regs[0].lane_id is None && regs[0].lane_seq is None
    &&& regs[0].thread_id@ == orchestrator_thread_id
    &&& {
        let u = items[0];
        &&& u.item_id@ == match opt_string_view(request.user_message_id) {
            Some(id) => id,
            None => "turn-item-user-"@ + t,
        }
        &&& u.item_seq == 1
        &&& u.lane_id is None && u.lane_seq is None
        &&& u.kind@ == "user_message"@ && u.status@ == "completed"@ && u.source@ == "user"@
        &&& u.title is None
        &&& opt_string_view(u.content) == opt_string_view(request.trimmed_text)
        &&& opt_string_view(u.task_id) == Some(ids.action_task_id@)
        &&& u.worker_id is None && u.role_id is None
        &&& opt_string_view(u.request_id) == opt_string_view(request.request_id)
        &&& opt_string_view(u.user_message_id) == opt_string_view(request.user_message_id)
        &&& opt_string_view(u.placeholder_message_id) == opt_string_view(request.placeholder_message_id)
        &&& opt_string_view(u.timeline_entry_id) == Some(request.entry_id@)
        &&& u.source_thread_id@ == orchestrator_thread_id
    }
    &&& forall|i: int| 0 <= i < steps.len() ==> {
        let s = #[trigger] steps[i];
        let r = regs[i + 1];
        let l = lanes[i];
        let w = items[i + 1];
        let f = steps[first_step(steps, i)];
        &&& r.task_id@ == s.task_id@ && !r.is_primary
        &&& opt_string_view(r.lane_id) == Some(lane_name(s.task_id@))
        &&& r.lane_seq == Some((first_step(steps, i) + 1) as usize)
        &&& r.thread_id@ == s.thread_id@
        &&& l.lane_id@ == lane_name(s.task_id@) && l.lane_seq == i + 1
        &&& l.task_id@ == s.task_id@ && l.worker_id@ == ids.worker_id@
        &&& Some(l.role_id@) == step_role(s)
        &&& l.thread_id@ == s.thread_id@ && l.title@ == step_title(s)
        &&& w.item_id@ == "turn-item-worker-spawned-"@ + t + "-"@ + decimal(i as nat)
        &&& w.item_seq == i + 2
        &&& opt_string_view(w.lane_id) == Some(lane_name(s.task_id@)) && w.lane_seq == Some((i + 1) as usize)
        &&& w.kind@ == "worker_spawned"@ && w.status@ == "pending"@ && w.source@ == ids.worker_id@
        &&& opt_string_view(w.title) == Some(step_title(f))
        &&& opt_string_view(w.content) == Some("已为 "@ + step_title(f) + " 创建执行步骤。"@)
        &&& opt_string_view(w.task_id) == Some(s.task_id@)
        &&& opt_string_view(w.worker_id) == Some(ids.worker_id@)
        &&& opt_string_view(w.role_id) == step_role(s)
        &&& opt_string_view(w.request_id) == opt_string_view(request.request_id)
        &&& opt_string_view(w.user_message_id) == opt_string_view(request.user_message_id)
        &&& opt_string_view(w.placeholder_message_id) == opt_string_view(request.placeholder_message_id)
        &&& w.timeline_entry_id is None
        &&& w.source_thread_id@ == f.thread_id@
    }
}

fn find_step(steps: &Vec<DispatchStep>, i: usize) -> (r: usize)
    requires
        i < steps@.len(),
    ensures
        r == first_step(steps@, i as int),
        r <= i,
{
    let ghost keys = step_ids(steps@);
    let mut k: usize = 0;
    while k < i
        invariant
            k <= i,
            i < steps@.len(),
            keys == step_ids(steps@),
            forall|j: int| 0 <= j < k ==> #[trigger] keys[j] != steps@[i as int].task_id@,
        decreases i - k,
    {
        assert(keys[k as int] == steps@[k as int].task_id@);
        if crate::text::str_eq(steps[k].task_id.as_str(), steps[i].task_id.as_str()) {
            proof {
                crate::recovery_read_model::lemma_first_index(keys, steps@[i as int].task_id@, k as int);
            }
            return k;
        }
        k = k + 1;
    }
    proof {
        assert(keys[i as int] == steps@[i as int].task_id@);
        crate::recovery_read_model::lemma_first_index(keys, steps@[i as int].task_id@, i as int);
    }
    i
}

fn title_of(step: &DispatchStep) -> (r: String)
    ensures
        r@ == step_title(*step),
{
    match &step.title {
        Some(t) => t.clone(),
        None => step.task_id.clone(),
    }
}

/// The registrations, lanes and turn items of a dispatch whose worker
/// steps are `steps`, each of which declares its role.
pub fn plan_dispatch_turn(
    request: &DispatchRequestFacts,
    ids: &DispatchIds,
    orchestrator_thread_id: &str,
    steps: &Vec<DispatchStep>,
) -> (r: DispatchTurnPlan)
    requires
        roles_declared(steps@),
        steps@.len() + 2 <= usize::MAX,
    ensures
        is_dispatch_turn(r, *request, *ids, orchestrator_thread_id@, steps@),
{
    let t = u64_to_decimal(request.accepted_at);
    let mut registrations: Vec<DispatchRegistration> = Vec::new();
    registrations.push(DispatchRegistration {
        task_id: ids.action_task_id.clone(),
        is_primary: true,
        lane_id: None,
        lane_seq: None,
        thread_id: str_to_string(orchestrator_thread_id),
    });
    let user_item_id = match &request.user_message_id {
        Some(id) => id.clone(),
        None => concat("turn-item-user-", t.as_str()),
    };
    let mut items: Vec<DispatchTurnItem> = Vec::new();
    items.push(DispatchTurnItem {
        item_id: user_item_id,
        item_seq: 1,
        lane_id: None,
        lane_seq: None,
        kind: str_to_string("user_message"),
        status: str_to_string("completed"),
        source: str_to_string("user"),
        title: None,
        content: crate::text::copy_opt_string(&request.trimmed_text),
        task_id: Some(ids.action_task_id.clone()),
        worker_id: None,
        role_id: None,
        request_id: crate::text::copy_opt_string(&request.request_id),
        user_message_id: crate::text::copy_opt_string(&request.user_message_id),
        placeholder_message_id: crate::text::copy_opt_string(&request.placeholder_message_id),
        timeline_entry_id: Some(request.entry_id.clone()),
        source_thread_id: str_to_string(orchestrator_thread_id),
    });
    let mut lanes: Vec<DispatchLane> = Vec::new();
    let mut i: usize = 0;
    while i < steps.len()
        invariant
            i <= steps@.len(),
            steps@.len() + 2 <= usize::MAX,
            roles_declared(steps@),
            t@ == decimal(request.accepted_at as nat),
            registrations@.len() == i + 1,
            lanes@.len() == i,
            items@.len() == i + 1,
            registrations@[0].task_id@ == ids.action_task_id@ && registrations@[0].is_primary,
            registrations@[0].lane_id is None && registrations@[0].lane_seq is None,
            registrations@[0].thread_id@ == orchestrator_thread_id@,
            ({
                let u = items@[0];
                &&& u.item_id@ == match opt_string_view(request.user_message_id) {
                    Some(id) => id,
                    None => "turn-item-user-"@ + decimal(request.accepted_at as nat),
                }
                &&& u.item_seq == 1
                &&& u.lane_id is None && u.lane_seq is None
                &&& u.kind@ == "user_message"@ && u.status@ == "completed"@ && u.source@ == "user"@
                &&& u.title is None
                &&& opt_string_view(u.content) == opt_string_view(request.trimmed_text)
                &&& opt_string_view(u.task_id) == Some(ids.action_task_id@)
                &&& u.worker_id is None && u.role_id is None
                &&& opt_string_view(u.request_id) == opt_string_view(request.request_id)
                &&& opt_string_view(u.user_message_id) == opt_string_view(request.user_message_id)
                &&& opt_string_view(u.placeholder_message_id) == opt_string_view(request.placeholder_message_id)
                &&& opt_string_view(u.timeline_entry_id) == Some(request.entry_id@)
                &&& u.source_thread_id@ == orchestrator_thread_id@
            }),
            forall|k: int| 0 <= k < i ==> {
                let s = #[trigger] steps@[k];
                let r = registrations@[k + 1];
                let l = lanes@[k];
                let w = items@[k + 1];
                let f = steps@[first_step(steps@, k)];
                &&& r.task_id@ == s.task_id@ && !r.is_primary
                &&& opt_string_view(r.lane_id) == Some(lane_name(s.task_id@))
                &&& r.lane_seq == Some((first_step(steps@, k) + 1) as usize)
                &&& r.thread_id@ == s.thread_id@
                &&& l.lane_id@ == lane_name(s.task_id@) && l.lane_seq == k + 1
                &&& l.task_id@ == s.task_id@ && l.worker_id@ == ids.worker_id@
                &&& Some(l.role_id@) == step_role(s)
                &&& l.thread_id@ == s.thread_id@ && l.title@ == step_title(s)
                &&& w.item_id@ == "turn-item-worker-spawned-"@ + decimal(request.accepted_at as nat) + "-"@ + decimal(k as nat)
                &&& w.item_seq == k + 2
                &&& opt_string_view(w.lane_id) == Some(lane_name(s.task_id@)) && w.lane_seq == Some((k + 1) as usize)
                &&& w.kind@ == "worker_spawned"@ && w.status@ == "pending"@ && w.source@ == ids.worker_id@
                &&& opt_string_view(w.title) == Some(step_title(f))
                &&& opt_string_view(w.content) == Some("已为 "@ + step_title(f) + " 创建执行步骤。"@)
                &&& opt_string_view(w.task_id) == Some(s.task_id@)
                &&& opt_string_view(w.worker_id) == Some(ids.worker_id@)
                &&& opt_string_view(w.role_id) == step_role(s)
                &&& opt_string_view(w.request_id) == opt_string_view(request.request_id)
                &&& opt_string_view(w.user_message_id) == opt_string_view(request.user_message_id)
                &&& opt_string_view(w.placeholder_message_id) == opt_string_view(request.placeholder_message_id)
                &&& w.timeline_entry_id is None
                &&& w.source_thread_id@ == f.thread_id@
            },
        decreases steps@.len() - i,
    {
        let step = &steps[i];
        assert(step_role(steps@[i as int]) is Some);
        let role = match crate::text::trimmed_non_empty(crate::text::opt_as_str(&step.target_role)) {
            Some(r) => r,
            None => {
                assert(false);
                str_to_string("")
            },
        };
        let lane_id = concat("lane-", step.task_id.as_str());
        let first = find_step(steps, i);
        let first_title = title_of(&steps[first]);
        registrations.push(DispatchRegistration {
            task_id: step.task_id.clone(),
            is_primary: false,
            lane_id: Some(lane_id.clone()),
            lane_seq: Some(first + 1),
            thread_id: step.thread_id.clone(),
        });
        lanes.push(DispatchLane {
            lane_id: lane_id.clone(),
            lane_seq: i + 1,
            task_id: step.task_id.clone(),
            worker_id: ids.worker_id.clone(),
            role_id: role.clone(),
            thread_id: step.thread_id.clone(),
            title: title_of(step),
        });
        let mut item_id = concat("turn-item-worker-spawned-", t.as_str());
        item_id.append("-");
        item_id.append(usize_to_decimal(i).as_str());
        let mut content = concat("已为 ", first_title.as_str());
        content.append(" 创建执行步骤。");
        items.push(DispatchTurnItem {
            item_id,
            item_seq: i + 2,
            lane_id: Some(lane_id),
            lane_seq: Some(i + 1),
            kind: str_to_string("worker_spawned"),
            status: str_to_string("pending"),
            source: ids.worker_id.clone(),
            title: Some(first_title),
            content: Some(content),
            task_id: Some(step.task_id.clone()),
            worker_id: Some(ids.worker_id.clone()),
            role_id: Some(role),
            request_id: crate::text::copy_opt_string(&request.request_id),
            user_message_id: crate::text::copy_opt_string(&request.user_message_id),
            placeholder_message_id: crate::text::copy_opt_string(&request.placeholder_message_id),
            timeline_entry_id: None,
            source_thread_id: steps[first].thread_id.clone(),
        });
        i = i + 1;
    }
    DispatchTurnPlan { registrations, lanes, items }
}

} // verus!
