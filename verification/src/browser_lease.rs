//! Which tab a browser tool call works on, the owner it acts for, and
//! whether it reuses, replaces or is refused the surface's lease.

use vstd::prelude::*;
use crate::browser::BrowserToolError;
use crate::text::{opt_str_view, opt_string_view, str_to_string};

verus! {

/// Whom an execution belongs to.
#[derive(Clone, Debug)]
pub struct ExecutionOwnership {
    pub session_id: Option<String>,
    pub workspace_id: Option<String>,
    pub mission_id: Option<String>,
    pub task_id: Option<String>,
    pub worker_id: Option<String>,
    pub execution_chain_ref: Option<String>,
}

/// The owner a browser call acts for: the session's recorded ownership
/// (else one of the call's own), always in the call's session and
/// workspace, with the call's task and worker where it names them.
pub open spec fn call_ownership(
    r: ExecutionOwnership,
    stored: Option<ExecutionOwnership>,
    session_id: Seq<char>,
    workspace_id: Option<Seq<char>>,
    task_id: Option<Seq<char>>,
    worker_id: Option<Seq<char>>,
) -> bool {
    &&& opt_string_view(r.session_id) == Some(session_id)
    &&& opt_string_view(r.workspace_id) == workspace_id
    &&& opt_string_view(r.mission_id) == match stored { Some(o) => opt_string_view(o.mission_id), None => None }
    &&& opt_string_view(r.execution_chain_ref) == match stored {
        Some(o) => opt_string_view(o.execution_chain_ref),
        None => None,
    }
    &&& opt_string_view(r.task_id) == match task_id {
        Some(t) => Some(t),
        None => match stored { Some(o) => opt_string_view(o.task_id), None => None },
    }
    &&& opt_string_view(r.worker_id) == match worker_id {
        Some(w) => Some(w),
        None => match stored { Some(o) => opt_string_view(o.worker_id), None => None },
    }
}

fn opt_copy(v: Option<&str>) -> (r: Option<String>)
    ensures
        opt_string_view(r) == opt_str_view(v),
{
    match v {
        Some(s) => Some(str_to_string(s)),
        None => None,
    }
}

/// The owner a browser call acts for.
pub fn browser_call_ownership(
    stored: Option<&ExecutionOwnership>,
    session_id: &str,
    workspace_id: Option<&str>,
    task_id: Option<&str>,
    worker_id: Option<&str>,
) -> (r: ExecutionOwnership)
    ensures
        call_ownership(
            r,
            match stored { Some(o) => Some(*o), None => None },
            session_id@,
            opt_str_view(workspace_id),
            opt_str_view(task_id),
            opt_str_view(worker_id),
        ),
{
    let (mission_id, execution_chain_ref, stored_task, stored_worker) = match stored {
        Some(o) => (
            crate::text::copy_opt_string(&o.mission_id),
            crate::text::copy_opt_string(&o.execution_chain_ref),
            crate::text::copy_opt_string(&o.task_id),
            crate::text::copy_opt_string(&o.worker_id),
        ),
        None => (None, None, None, None),
    };
    ExecutionOwnership {
        session_id: Some(str_to_string(session_id)),
        workspace_id: opt_copy(workspace_id),
        mission_id,
        task_id: match task_id {
            Some(t) => Some(str_to_string(t)),
            None => stored_task,
        },
        worker_id: match worker_id {
            Some(w) => Some(str_to_string(w)),
            None => stored_worker,
        },
        execution_chain_ref,
    }
}

/// The goal a lease is bound to, at one revision of its control.
#[derive(Clone, Debug)]
pub struct GoalControlBinding {
    pub goal_id: String,
    pub control_revision: u64,
}

/// What a surface's active lease records.
#[derive(Clone, Debug)]
pub struct LeaseFacts {
    pub owner: ExecutionOwnership,
    pub turn_id: String,
    pub goal_binding: Option<GoalControlBinding>,
    pub expires_at: u64,
}

/// What a browser call does about a surface's lease.
#[derive(Clone, Copy, Debug, PartialEq, Eq, Structural)]
pub enum LeaseDecision {
    /// The surface has no active lease: take one.
    Acquire,
    /// The active lease is this call's own and still valid: keep it.
    Reuse,
    /// The active lease is this executor's, from another turn or goal, or
    /// expired: revoke it and take a new one.
    Replace,
    /// Another executor controls the surface.
    Conflict,
}

pub open spec fn same_goal(a: Option<GoalControlBinding>, b: Option<GoalControlBinding>) -> bool {
    match (a, b) {
        (None, None) => true,
        (Some(x), Some(y)) => x.goal_id@ == y.goal_id@ && x.control_revision == y.control_revision,
        _ => false,
    }
}

/// The same executor: the same session, task and worker.
pub open spec fn same_executor(a: ExecutionOwnership, b: ExecutionOwnership) -> bool {
    &&& opt_string_view(a.session_id) == opt_string_view(b.session_id)
    &&& opt_string_view(a.task_id) == opt_string_view(b.task_id)
    &&& opt_string_view(a.worker_id) == opt_string_view(b.worker_id)
}

pub open spec fn lease_decision_of(
    lease: Option<LeaseFacts>,
    owner: ExecutionOwnership,
    turn_id: Seq<char>,
    goal: Option<GoalControlBinding>,
    now: u64,
) -> LeaseDecision {
    match lease {
        None => LeaseDecision::Acquire,
        Some(l) => if same_executor(l.owner, owner) {
            if l.turn_id@ == turn_id && same_goal(l.goal_binding, goal) && now < l.expires_at {
                LeaseDecision::Reuse
            } else {
                LeaseDecision::Replace
            }
        } else {
            LeaseDecision::Conflict
        },
    }
}

fn opt_eq(a: &Option<String>, b: &Option<String>) -> (r: bool)
    ensures
        r == (opt_string_view(*a) == opt_string_view(*b)),
{
    match (a, b) {
        (Some(x), Some(y)) => crate::text::str_eq(x.as_str(), y.as_str()),
        (None, None) => true,
        _ => false,
    }
}

/// What a browser call does about the surface's active lease, if any.
pub fn browser_lease_decision(
    lease: Option<&LeaseFacts>,
    owner: &ExecutionOwnership,
    turn_id: &str,
    goal: &Option<GoalControlBinding>,
    now: u64,
) -> (r: LeaseDecision)
    ensures
        r == lease_decision_of(match lease { Some(l) => Some(*l), None => None }, *owner, turn_id@, *goal, now),
{
    match lease {
        None => LeaseDecision::Acquire,
        Some(l) => {
            let same = opt_eq(&l.owner.session_id, &owner.session_id) && opt_eq(&l.owner.task_id, &owner.task_id)
                && opt_eq(&l.owner.worker_id, &owner.worker_id);
            if !same {
                return LeaseDecision::Conflict;
            }
            let goal_same = match (&l.goal_binding, goal) {
                (None, None) => true,
                (Some(x), Some(y)) => crate::text::str_eq(x.goal_id.as_str(), y.goal_id.as_str())
                    && x.control_revision == y.control_revision,
                _ => false,
            };
            if crate::text::str_eq(l.turn_id.as_str(), turn_id) && goal_same && now < l.expires_at {
                LeaseDecision::Reuse
            } else {
                LeaseDecision::Replace
            }
        },
    }
}

/// What a call does for its browser session.
#[derive(Clone, Debug)]
pub enum BrowserSessionPlan {
    /// Use the browser session that the authority holds for the Magi session.
    Reuse,
    /// Create a browser session of this id and make it ready.
    Create { browser_session_id: String },
}

/// A call reuses the browser session held for its Magi session, which must
/// be in the call's workspace (`existing` is that session's workspace,
/// where there is a session), or else creates
/// `browser-tool-session-{session}`.
pub open spec fn is_session_plan(
    r: Result<BrowserSessionPlan, BrowserToolError>,
    session_id: Seq<char>,
    existing: Option<Option<Seq<char>>>,
    workspace_id: Option<Seq<char>>,
) -> bool {
    match existing {
        Some(w) => if w == workspace_id {
            r matches Ok(BrowserSessionPlan::Reuse)
        } else {
            r matches Err(e) && e.code@ == "browser_workspace_scope_mismatch"@ && e.message@ == "浏览器会话与当前工作区不匹配"@
        },
        None => r matches Ok(BrowserSessionPlan::Create { browser_session_id }) && browser_session_id@ == "browser-tool-session-"@ + session_id,
    }
}

/// Once a call created the browser session of a Magi session in a
/// workspace, every later call in that workspace reuses it, and a call in
/// another workspace is refused: a session is never created twice.
pub proof fn lemma_browser_session_created_once(
    created: Result<BrowserSessionPlan, BrowserToolError>,
    later: Result<BrowserSessionPlan, BrowserToolError>,
    session_id: Seq<char>,
    workspace_id: Option<Seq<char>>,
    later_workspace_id: Option<Seq<char>>,
)
    requires
        is_session_plan(created, session_id, None, workspace_id),
        is_session_plan(later, session_id, Some(workspace_id), later_workspace_id),
    ensures
        created is Ok && !(created matches Ok(BrowserSessionPlan::Reuse)),
        !(later matches Ok(BrowserSessionPlan::Create { .. })),
        later_workspace_id == workspace_id ==> later matches Ok(BrowserSessionPlan::Reuse),
        later_workspace_id != workspace_id ==> (later matches Err(e) && e.code@ == "browser_workspace_scope_mismatch"@),
{
}

/// The browser session plan of a call (see [`is_session_plan`]).
pub fn browser_session_plan(
    session_id: &str,
    existing: Option<Option<&str>>,
    workspace_id: Option<&str>,
) -> (r: Result<BrowserSessionPlan, BrowserToolError>)
    ensures
        is_session_plan(
            r,
            session_id@,
            match existing { Some(w) => Some(opt_str_view(w)), None => None },
            opt_str_view(workspace_id),
        ),
{
    match existing {
        Some(w) => {
            let same = match (w, workspace_id) {
                (Some(a), Some(b)) => crate::text::str_eq(a, b),
                (None, None) => true,
                _ => false,
            };
            if same {
                Ok(BrowserSessionPlan::Reuse)
            } else {
                Err(BrowserToolError::new("browser_workspace_scope_mismatch", "浏览器会话与当前工作区不匹配"))
            }
        },
        None => {
            let mut id = str_to_string("browser-tool-session-");
            id.append(session_id);
            Ok(BrowserSessionPlan::Create { browser_session_id: id })
        },
    }
}

/// The error of a call whose surface another executor controls.
pub fn lease_conflict_error() -> (r: BrowserToolError)
    ensures
        r.code@ == "browser_control_lease_conflict"@,
        r.message@ == "当前浏览器 Surface 正由另一个执行者控制"@,
{
    BrowserToolError::new("browser_control_lease_conflict", "当前浏览器 Surface 正由另一个执行者控制")
}

/// `browser-lease-{now}-{sequence}`: the id of a new lease.
pub fn browser_lease_id(now_ms: u64, sequence: u64) -> (r: String)
    ensures
        r@ == "browser-lease-"@ + crate::text::decimal(now_ms as nat) + "-"@ + crate::text::decimal(sequence as nat),
{
    let mut id = str_to_string("browser-lease-");
    id.append(crate::text::u64_to_decimal(now_ms).as_str());
    id.append("-");
    id.append(crate::text::u64_to_decimal(sequence).as_str());
    id
}

/// A surface has one controller at a time: a call keeps a lease only when
/// it is its own executor's, of its turn and goal, and not expired; it is
/// refused exactly when another executor holds the lease.
pub proof fn lemma_one_controller_per_surface(
    lease: Option<LeaseFacts>,
    owner: ExecutionOwnership,
    turn_id: Seq<char>,
    goal: Option<GoalControlBinding>,
    now: u64,
)
    ensures
        lease_decision_of(lease, owner, turn_id, goal, now) == LeaseDecision::Reuse ==> {
            let l = lease->0;
            &&& same_executor(l.owner, owner)
            &&& l.turn_id@ == turn_id
            &&& now < l.expires_at
        },
        (lease_decision_of(lease, owner, turn_id, goal, now) == LeaseDecision::Conflict)
            <==> (lease matches Some(l) && !same_executor(l.owner, owner)),
        (lease_decision_of(lease, owner, turn_id, goal, now) == LeaseDecision::Acquire) <==> lease is None,
{
}

/// What the browser authority holds of a tab: its session, and whether its
/// lifecycle lets a call use it (ready, suspended or crashed).
#[derive(Clone, Debug)]
pub struct TabFacts {
    pub tab_id: String,
    pub browser_session_id: String,
    pub usable: bool,
}

pub open spec fn first_known(lookups: Seq<Option<TabFacts>>) -> Option<TabFacts>
    decreases lookups.len(),
{
    if lookups.len() == 0 {
        None
    } else if lookups[0] is Some {
        lookups[0]
    } else {
        first_known(lookups.drop_first())
    }
}

/// The tab a call works on: the one it names, which must exist, belong to
/// the call's browser session and be usable; else the first tab the
/// authority knows among the session's active tab and its tabs, in that
/// order, if that one is usable (`Ok(None)`: a new tab is opened).
pub open spec fn tab_choice_of(
    requested: Option<Seq<char>>,
    requested_tab: Option<TabFacts>,
    browser_session_id: Seq<char>,
    lookups: Seq<Option<TabFacts>>,
) -> Result<Option<Seq<char>>, (Seq<char>, Seq<char>)> {
    match requested {
        Some(_) => match requested_tab {
            None => Err(("browser_tab_not_found"@, "指定的浏览器 Tab 不存在"@)),
            Some(t) => if t.browser_session_id@ != browser_session_id {
                Err(("browser_tab_scope_mismatch"@, "指定的浏览器 Tab 不属于当前浏览器会话"@))
            } else if !t.usable {
                Err(("browser_tab_not_ready"@, "指定的浏览器 Tab 当前不可用"@))
            } else {
                Ok(Some(t.tab_id@))
            },
        },
        None => match first_known(lookups) {
            Some(t) => if t.usable { Ok(Some(t.tab_id@)) } else { Ok(None) },
            None => Ok(None),
        },
    }
}

/// The tab a call works on (see [`tab_choice_of`]): `requested_tab` is what
/// the authority holds of the tab the call names, `lookups` what it holds
/// of the session's active tab and of its tabs, in order.
pub fn browser_tab_choice(
    arguments: &Vec<(String, crate::json::JsonValue)>,
    requested_tab: Option<&TabFacts>,
    browser_session_id: &str,
    lookups: &Vec<Option<TabFacts>>,
) -> (r: Result<Option<String>, BrowserToolError>)
    ensures
        match (r, tab_choice_of(
            crate::browser_args::optional_string_of(crate::json::json_entries_view(arguments@), "tab_id"@),
            match requested_tab { Some(t) => Some(*t), None => None },
            browser_session_id@,
            lookups@,
        )) {
            (Ok(t), Ok(expected)) => opt_string_view(t) == expected,
            (Err(e), Err((code, message))) => e.code@ == code && e.message@ == message,
            _ => false,
        },
{
    match crate::browser_args::optional_string(arguments, "tab_id") {
        Some(_) => match requested_tab {
            None => Err(BrowserToolError::new("browser_tab_not_found", "指定的浏览器 Tab 不存在")),
            Some(t) => {
                if !crate::text::str_eq(t.browser_session_id.as_str(), browser_session_id) {
                    Err(BrowserToolError::new("browser_tab_scope_mismatch", "指定的浏览器 Tab 不属于当前浏览器会话"))
                } else if !t.usable {
                    Err(BrowserToolError::new("browser_tab_not_ready", "指定的浏览器 Tab 当前不可用"))
                } else {
                    Ok(Some(t.tab_id.clone()))
                }
            },
        },
        None => {
            let mut i: usize = 0;
            assert(lookups@.skip(0) == lookups@);
            while i < lookups.len()
                invariant
                    i <= lookups@.len(),
                    first_known(lookups@) == first_known(lookups@.skip(i as int)),
                    crate::browser_args::optional_string_of(crate::json::json_entries_view(arguments@), "tab_id"@) is None,
                decreases lookups@.len() - i,
            {
                assert(lookups@.skip(i as int)[0] == lookups@[i as int]);
                assert(lookups@.skip(i as int).drop_first() == lookups@.skip(i + 1));
                match &lookups[i] {
                    Some(t) => {
                        assert(lookups@.skip(i as int).len() > 0);
                        assert(first_known(lookups@.skip(i as int)) == lookups@[i as int]);
                        assert(lookups@[i as int] == Some(*t));
                        let chosen: Option<String> = if t.usable {
                            Some(t.tab_id.clone())
                        } else {
                            None
                        };
                        return Ok(chosen);
                    },
                    None => {},
                }
                i = i + 1;
            }
            Ok(None)
        },
    }
}

} // verus!
