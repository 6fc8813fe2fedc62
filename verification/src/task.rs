//! Tasks, their targets and options, as the runner reads them.
use vstd::prelude::*;

verus! {

/// Which projects a target names.
pub enum TargetProjectScope {
    /// Every project (`:task`).
    All,
    /// The dependencies of the running project (`^:task`).
    Deps,
    /// One project by identifier (`project:task`).
    Id(String),
    /// The running project itself (`~:task`).
    OwnSelf,
}

/// A target: a task, scoped to projects.
pub struct Target {
    /// The target as written, such as `app:build`.
    pub id: String,
    pub project: TargetProjectScope,
    /// The owning project, where the target names one.
    pub project_id: Option<String>,
    pub task_id: String,
}

/// Why a target could not be read or used.
#[derive(Debug)]
pub enum TargetError {
    /// A target string that is not a target.
    InvalidFormat(String),
    /// A `^:` target where no project is running.
    NoProjectDepsInRunContext,
    /// A `~:` target where no project is running.
    NoProjectSelfInRunContext,
}

impl TargetError {
    /// A copy of the error.
    pub fn duplicate(&self) -> (r: TargetError)
        ensures
            r == *self,
    {
        match self {
            TargetError::InvalidFormat(s) => TargetError::InvalidFormat(s.clone()),
            TargetError::NoProjectDepsInRunContext => TargetError::NoProjectDepsInRunContext,
            TargetError::NoProjectSelfInRunContext => TargetError::NoProjectSelfInRunContext,
        }
    }
}

/// How a task's output is shown.
#[derive(PartialEq, Eq, Structural, Clone, Copy, Debug)]
pub enum TaskOutputStyle {
    Buffer,
    BufferOnlyFailure,
    Hash,
    /// Shows nothing (`none` in the configuration).
    Nothing,
    Stream,
}

/// Where a task receives the files affected by a change.
#[derive(PartialEq, Eq, Structural, Clone, Copy, Debug)]
pub enum TaskOptionAffectedFiles {
    Args,
    Both,
    Env,
}

/// The platform a task runs on.
#[derive(PartialEq, Eq, Structural, Clone, Copy, Debug)]
pub enum PlatformType {
    Node,
    System,
    Unknown,
}

/// The options of a task that the runner reads.
pub struct TaskOptions {
    pub affected_files: Option<TaskOptionAffectedFiles>,
    pub cache: bool,
    pub output_style: Option<TaskOutputStyle>,
    pub retry_count: u8,
    pub run_from_workspace_root: bool,
}

/// A task as the runner reads it.
pub struct Task {
    pub args: Vec<String>,
    pub command: String,
    pub options: TaskOptions,
    /// The declared outputs.
    pub outputs: Vec<String>,
    pub platform: PlatformType,
    pub target: Target,
    /// Whether the task is of the build type (it has outputs to cache).
    pub is_build_type: bool,
    /// Whether the task's command does nothing.
    pub is_no_op: bool,
}

}
