//! The recovery resume request.

use vstd::prelude::*;
use crate::ids::WorkerId;
use crate::text::{non_empty_trimmed, opt_as_str, opt_string_view, trimmed_non_empty};

verus! {

/// A request to resume a prepared recovery.
#[derive(Clone, Debug)]
pub struct RecoveryResumeRequestDto {
    pub recovery_id: String,
    pub worker_id: Option<String>,
}

impl RecoveryResumeRequestDto {
    /// The recovery id, trimmed, when not blank.
    pub fn requested_recovery_id(&self) -> (r: Option<String>)
        ensures
            opt_string_view(r) == non_empty_trimmed(Some(self.recovery_id@)),
    {
        trimmed_non_empty(Some(self.recovery_id.as_str()))
    }

    /// The worker id, trimmed, when not blank.
    pub fn requested_worker_id(&self) -> (r: Option<WorkerId>)
        ensures
            r is Some <==> non_empty_trimmed(opt_string_view(self.worker_id)) is Some,
            r is Some ==> Some(r->0.value@) == non_empty_trimmed(opt_string_view(self.worker_id)),
    {
        match trimmed_non_empty(opt_as_str(&self.worker_id)) {
            Some(v) => Some(WorkerId::new(v)),
            None => None,
        }
    }
}

/// What a recovery that was resumed reports: its input's recovery,
/// snapshot and ownership, and its decision's mission, assignment, task
/// and worker.
#[derive(Clone, Debug)]
pub struct RecoveryExecutionFacts {
    pub recovery_id: String,
    pub snapshot_id: String,
    pub session_id: Option<String>,
    pub workspace_id: Option<String>,
    pub owner_worker_id: Option<String>,
    pub mission_id: String,
    pub assignment_id: String,
    pub task_id: String,
    pub decided_worker_id: Option<String>,
}

/// The answer to a resumed recovery.
#[derive(Clone, Debug)]
pub struct RecoveryResumeResponseDto {
    pub recovery_id: String,
    pub snapshot_id: String,
    pub session_id: Option<String>,
    pub workspace_id: Option<String>,
    pub mission_id: String,
    pub assignment_id: String,
    pub task_id: String,
    pub worker_id: String,
    pub event_id: String,
    pub resumed_at: u64,
    pub memory_writeback_applied: bool,
}

impl RecoveryResumeResponseDto {
    /// The answer for a resumed recovery: the decided worker, else the
    /// recovery's owner (a resumed recovery has one of them).
    pub fn new(result: &RecoveryExecutionFacts, event_id: &str, resumed_at: u64, memory_writeback_applied: bool) -> (r: Self)
        requires
            result.decided_worker_id is Some || result.owner_worker_id is Some,
        ensures
            r.recovery_id@ == result.recovery_id@,
            r.snapshot_id@ == result.snapshot_id@,
            opt_string_view(r.session_id) == opt_string_view(result.session_id),
            opt_string_view(r.workspace_id) == opt_string_view(result.workspace_id),
            r.mission_id@ == result.mission_id@,
            r.assignment_id@ == result.assignment_id@,
            r.task_id@ == result.task_id@,
            r.worker_id@ == match opt_string_view(result.decided_worker_id) {
                Some(w) => w,
                None => opt_string_view(result.owner_worker_id)->0,
            },
            r.event_id@ == event_id@,
            r.resumed_at == resumed_at,
            r.memory_writeback_applied == memory_writeback_applied,
    {
        let worker_id = match &result.decided_worker_id {
            Some(w) => w.clone(),
            None => match &result.owner_worker_id {
                Some(w) => w.clone(),
                None => {
                    assert(false);
                    crate::text::str_to_string("")
                },
            },
        };
        RecoveryResumeResponseDto {
            recovery_id: result.recovery_id.clone(),
            snapshot_id: result.snapshot_id.clone(),
            session_id: crate::text::copy_opt_string(&result.session_id),
            workspace_id: crate::text::copy_opt_string(&result.workspace_id),
            mission_id: result.mission_id.clone(),
            assignment_id: result.assignment_id.clone(),
            task_id: result.task_id.clone(),
            worker_id,
            event_id: crate::text::str_to_string(event_id),
            resumed_at,
            memory_writeback_applied,
        }
    }
}

} // verus!
