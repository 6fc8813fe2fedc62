//! Setting up the tool a task's runtime needs.
use vstd::prelude::*;
use crate::action::ActionStatus;

verus! {

/// The runtime a task needs.
pub enum Runtime {
    /// Node.js at a version.
    Node(String),
    /// The system's own tools: nothing to set up.
    System,
}

/// What setting up a runtime amounts to.
pub enum SetupPlan {
    /// Nothing is set up.
    Skip,
    /// Node.js is set up at this version, registering it first when only the workspace
    /// version is known.
    SetupNode(String),
}

/// What setting up a runtime amounts to: nothing for the system runtime, else Node.js
/// at the runtime's version.
pub fn setup_tool(runtime: &Runtime) -> (r: SetupPlan)
    ensures
        match runtime {
            Runtime::System => r is Skip,
            Runtime::Node(v) => r matches SetupPlan::SetupNode(w) && w@ == v@,
        },
{
    match runtime {
        Runtime::System => SetupPlan::Skip,
        Runtime::Node(v) => SetupPlan::SetupNode(v.clone()),
    }
}

/// Whether a version is registered from the project's override: when the toolchain
/// does not hold that version yet.
pub fn needs_override_registration(has_version: bool) -> (r: bool)
    ensures
        r == !has_version,
{
    !has_version
}

/// How a setup ends.
pub struct SetupOutcome {
    pub status: ActionStatus,
    /// The time recorded as the last version check, when the tool's state is saved.
    pub last_version_check_time: Option<u128>,
}

/// How a setup ends: skipped for the system runtime, with nothing saved; otherwise passed
/// when anything was installed and skipped when not, with the check time saved as `now`.
pub fn setup_tool_finish(plan: &SetupPlan, installed: u8, now: u128) -> (r: SetupOutcome)
    ensures
        match plan {
            SetupPlan::Skip => r.status == ActionStatus::Skipped && r.last_version_check_time is None,
            SetupPlan::SetupNode(_) => {
                &&& r.status == if installed > 0 { ActionStatus::Passed } else { ActionStatus::Skipped }
                &&& r.last_version_check_time == Some(now)
            },
        },
{
    match plan {
        SetupPlan::Skip => SetupOutcome { status: ActionStatus::Skipped, last_version_check_time: None },
        SetupPlan::SetupNode(_) => SetupOutcome {
            status: if installed > 0 { ActionStatus::Passed } else { ActionStatus::Skipped },
            last_version_check_time: Some(now),
        },
    }
}

}
