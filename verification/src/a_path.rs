//! The synchronous drive of a single-agent task: run cycles until the task
//! graph completes or blocks, within a fixed window, then judge the action
//! task's state.

use vstd::prelude::*;
use crate::api_error::ApiError;
use crate::text::{concat, str_to_string};

verus! {

/// The most run cycles one synchronous drive makes.
pub const A_PATH_CYCLE_LIMIT: usize = 32;

/// What one run cycle of the task runner reported.
#[derive(Clone, Debug)]
pub enum RunCycleOutcome {
    /// Work remains.
    Continue,
    /// Every task is done.
    AllComplete,
    /// The runner is blocked on these tasks (their text as reported).
    Blocked(String),
    /// The cycle failed.
    Error(String),
}

/// The state of the action task when the drive ends.
#[derive(Clone, Copy, Debug, PartialEq, Eq, Structural)]
pub enum ActionTaskStatus {
    Pending,
    Running,
    Blocked,
    Completed,
    Failed,
    Killed,
}

/// What the driver does next.
#[derive(Clone, Debug)]
pub enum DriveStep {
    /// Run another cycle.
    RunCycle,
    /// Stop cycling and judge the action task.
    Judge,
    /// Give up with this error.
    Fail(ApiError),
}

/// The drive of one task graph: how many cycles it ran.
#[derive(Clone, Debug)]
pub struct APathDriver {
    pub cycles: usize,
}

/// The outcome of a drive that ended well.
#[derive(Clone, Debug)]
pub struct APathDriveResult {
    /// Whether any cycle ran.
    pub runner_started: bool,
}

impl APathDriver {
    /// A drive that has not run a cycle; its first step is to run one.
    pub fn new() -> (r: (Self, DriveStep))
        ensures
            r.0.cycles == 0,
            r.1 is RunCycle,
    {
        (APathDriver { cycles: 0 }, DriveStep::RunCycle)
    }

    /// The step after a cycle: another while work remains and the window is
    /// not used up; judge the action task when all is complete, when the
    /// window is used up, or when the runner is blocked on an action task
    /// that is itself blocked; fail on any other block or on an error.
    pub fn after_cycle(&mut self, outcome: RunCycleOutcome, action_task_blocked: bool, failure_title: &str) -> (r: DriveStep)
        requires
            old(self).cycles < A_PATH_CYCLE_LIMIT,
        ensures
            final(self).cycles == old(self).cycles + 1,
            match outcome {
                RunCycleOutcome::Continue => if final(self).cycles < A_PATH_CYCLE_LIMIT { r is RunCycle } else { r is Judge },
                RunCycleOutcome::AllComplete => r is Judge,
                RunCycleOutcome::Blocked(tasks) => if action_task_blocked {
                    r is Judge
                } else {
                    r matches DriveStep::Fail(ApiError::InternalAssembly { context, detail })
                        && context@ == failure_title@ && detail@ == "task runner blocked: "@ + tasks@
                },
                RunCycleOutcome::Error(e) => r matches DriveStep::Fail(ApiError::InternalAssembly { context, detail })
                    && context@ == failure_title@ && detail@ == e@,
            },
    {
        self.cycles = self.cycles + 1;
        match outcome {
            RunCycleOutcome::Continue => {
                if self.cycles < A_PATH_CYCLE_LIMIT {
                    DriveStep::RunCycle
                } else {
                    DriveStep::Judge
                }
            },
            RunCycleOutcome::AllComplete => DriveStep::Judge,
            RunCycleOutcome::Blocked(tasks) => {
                if action_task_blocked {
                    DriveStep::Judge
                } else {
                    DriveStep::Fail(ApiError::InternalAssembly {
                        context: str_to_string(failure_title),
                        detail: concat("task runner blocked: ", tasks.as_str()),
                    })
                }
            },
            RunCycleOutcome::Error(e) => DriveStep::Fail(ApiError::InternalAssembly { context: str_to_string(failure_title), detail: e }),
        }
    }

    /// The judgment of the action task when cycling stopped: it must have
    /// completed, failed or blocked; the text of its state is what the
    /// error names otherwise.
    pub fn judge(&self, action_status: Option<ActionTaskStatus>, status_text: &str, failure_title: &str) -> (r: Result<APathDriveResult, ApiError>)
        ensures
            match action_status {
                None => r matches Err(ApiError::InternalAssembly { context, detail })
                    && context@ == failure_title@ && detail@ == "action task 不存在"@,
                Some(s) => if s == ActionTaskStatus::Completed || s == ActionTaskStatus::Failed || s == ActionTaskStatus::Blocked {
                    r matches Ok(res) && res.runner_started == (self.cycles > 0)
                } else {
                    r matches Err(ApiError::InternalAssembly { context, detail })
                        && context@ == failure_title@ && detail@ == "同步任务未在窗口内完成: "@ + status_text@
                },
            },
    {
        match action_status {
            None => Err(ApiError::InternalAssembly {
                context: str_to_string(failure_title),
                detail: str_to_string("action task 不存在"),
            }),
            Some(s) => {
                if s == ActionTaskStatus::Completed || s == ActionTaskStatus::Failed || s == ActionTaskStatus::Blocked {
                    Ok(APathDriveResult { runner_started: self.cycles > 0 })
                } else {
                    Err(ApiError::InternalAssembly {
                        context: str_to_string(failure_title),
                        detail: concat("同步任务未在窗口内完成: ", status_text),
                    })
                }
            },
        }
    }
}

} // verus!
