//! Actions, their attempts and the checkpoints printed for them.
use vstd::prelude::*;

verus! {

/// The state an action, or one attempt of it, ends in.
#[derive(PartialEq, Eq, Structural, Clone, Copy, Debug)]
pub enum ActionStatus {
    Cached,
    CachedFromRemote,
    Failed,
    Passed,
    Running,
    Skipped,
}

/// The checkpoint a status line is printed under.
#[derive(PartialEq, Eq, Structural, Clone, Copy, Debug)]
pub enum Checkpoint {
    RunFailed,
    RunPassed,
    RunStart,
    Setup,
}

/// One run of a target's command.
#[derive(PartialEq, Eq, Structural, Clone, Copy, Debug)]
pub struct Attempt {
    /// Which run this is, counting from 1.
    pub index: u8,
    /// Whether the run has ended.
    pub finished: bool,
    /// How it ended, or `Running`.
    pub status: ActionStatus,
}

impl Attempt {
    /// A run that has started and not ended.
    pub fn new(index: u8) -> (a: Attempt)
        ensures
            a == (Attempt { index, finished: false, status: ActionStatus::Running }),
    {
        Attempt { index, finished: false, status: ActionStatus::Running }
    }

    /// Records how the run ended.
    pub fn done(&mut self, status: ActionStatus)
        ensures
            *final(self) == (Attempt { index: old(self).index, finished: true, status }),
    {
        self.finished = true;
        self.status = status;
    }
}

}
