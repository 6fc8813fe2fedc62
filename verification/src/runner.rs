//! Running a target: when its outputs are archived or hydrated, how its command line
//! and environment are made, how its output is shown, and how it is retried.
use vstd::prelude::*;
use vstd::utf8::{encode_utf8, is_char_boundary};
use vstd::multiset::Multiset;
use crate::action::{ActionStatus, Attempt, Checkpoint};
use crate::emitter::EventFlow;
use crate::fxcollections::{string_table, string_table_insert, string_table_new, StringTable};
use crate::task::{Target, TargetError, TargetProjectScope, Task, TaskOptionAffectedFiles, TaskOutputStyle};
use crate::paths::{paths_sorted, sort_paths};
use crate::text::{decimal, decimal_string, joined, join_strings, opt_view, views};

verus! {

/// Where the outputs of a cached target come from.
#[derive(PartialEq, Eq, Structural, Clone, Copy, Debug)]
pub enum HydrateFrom {
    LocalCache,
    PreviousOutput,
    RemoteCache,
}

/// The cached state of a target's last run.
pub struct RunTargetState {
    pub exit_code: i32,
    /// The hash of the last run; empty when caching is off.
    pub hash: String,
    pub last_run_time: u128,
}

/// The project a target belongs to.
pub struct ProjectInfo {
    pub id: String,
    /// The absolute folder of the project.
    pub root: String,
    /// The folder of the project, relative to the workspace root.
    pub source: String,
}

/// The runner settings of the workspace configuration.
pub struct RunnerSettings {
    /// The targets that are archived besides build tasks, as read from the configuration.
    pub archivable_targets: Vec<Result<Target, TargetError>>,
    pub inherit_colors_for_piped_tasks: bool,
    pub log_running_command: bool,
}

/// The workspace a target runs in.
pub struct WorkspaceInfo {
    pub root: String,
    pub working_dir: String,
    pub runner: RunnerSettings,
}

/// Why running a target stopped.
#[derive(Debug)]
pub enum RunnerError {
    /// A declared output was not produced: the target and the output.
    MissingOutput(String, String),
    Target(TargetError),
}

/// Runs one target of one project.
pub struct TargetRunner {
    pub cache: RunTargetState,
    pub project: ProjectInfo,
    pub task: Task,
    pub workspace: WorkspaceInfo,
}

/// Whether the target is archived by one of `targets`, read in order: a build task
/// always is; an unreadable target or a `^:`/`~:` target stops the reading with its error.
pub open spec fn archivable_by(task: Task, targets: Seq<Result<Target, TargetError>>) -> Result<bool, TargetError>
    decreases targets.len(),
{
    if task.is_build_type {
        Ok(true)
    } else if targets.len() == 0 {
        Ok(false)
    } else {
        match targets[0] {
            Err(e) => Err(e),
            Ok(t) => match t.project {
                TargetProjectScope::All => if task.target.task_id@ == t.task_id@ {
                    Ok(true)
                } else {
                    archivable_by(task, targets.drop_first())
                },
                TargetProjectScope::Id(project_id) => if task.target.project_id is Some
                    && task.target.project_id->0@ == project_id@ && task.target.task_id@ == t.task_id@ {
                    Ok(true)
                } else {
                    archivable_by(task, targets.drop_first())
                },
                TargetProjectScope::Deps => Err(TargetError::NoProjectDepsInRunContext),
                TargetProjectScope::OwnSelf => Err(TargetError::NoProjectSelfInRunContext),
            },
        }
    }
}

/// A hash that `get_short_hash` can shorten: empty, or at least eight bytes long with a
/// character ending at the eighth byte.
pub open spec fn shortenable(hash: Seq<char>) -> bool {
    hash.len() == 0 || is_char_boundary(encode_utf8(hash), 8)
}

/// What is printed of a target's output.
#[derive(PartialEq, Eq, Structural, Clone, Copy, Debug)]
pub struct OutputPlan {
    /// Print the captured standard output.
    pub stdout: bool,
    /// Print the captured standard error.
    pub stderr: bool,
    /// Print the hash to standard error.
    pub hash: bool,
}

/// What `print_output_with_style` prints for the given style.
pub open spec fn output_plan(style: Option<TaskOutputStyle>, stdout_empty: bool, stderr_empty: bool, failed: bool, hash_empty: bool) -> OutputPlan {
    match style {
        Some(TaskOutputStyle::BufferOnlyFailure) => OutputPlan {
            stdout: failed && !stdout_empty,
            stderr: failed && !stderr_empty,
            hash: false,
        },
        Some(TaskOutputStyle::Hash) => OutputPlan { stdout: false, stderr: false, hash: !hash_empty },
        Some(TaskOutputStyle::Nothing) => OutputPlan { stdout: false, stderr: false, hash: false },
        _ => OutputPlan { stdout: !stdout_empty, stderr: !stderr_empty, hash: false },
    }
}

/// What each output style prints, whatever else holds: the hash style prints the hash
/// exactly when there is one, whether the run failed or not, and nothing else; buffering
/// only on failure prints the non-empty output only of a failed run; the none style prints
/// nothing; without a style, and when streaming or buffering, the non-empty output is printed
/// whether the run failed or not. Only the hash style prints the hash.
pub proof fn law_output_styles(stdout_empty: bool, stderr_empty: bool, failed: bool, hash_empty: bool)
    ensures
        output_plan(Some(TaskOutputStyle::Hash), stdout_empty, stderr_empty, failed, hash_empty)
            == (OutputPlan { stdout: false, stderr: false, hash: !hash_empty }),
        output_plan(Some(TaskOutputStyle::BufferOnlyFailure), stdout_empty, stderr_empty, failed, hash_empty)
            == (OutputPlan { stdout: failed && !stdout_empty, stderr: failed && !stderr_empty, hash: false }),
        output_plan(Some(TaskOutputStyle::Nothing), stdout_empty, stderr_empty, failed, hash_empty)
            == (OutputPlan { stdout: false, stderr: false, hash: false }),
        output_plan(Some(TaskOutputStyle::Buffer), stdout_empty, stderr_empty, failed, hash_empty)
            == (OutputPlan { stdout: !stdout_empty, stderr: !stderr_empty, hash: false }),
        output_plan(Some(TaskOutputStyle::Stream), stdout_empty, stderr_empty, failed, hash_empty)
            == (OutputPlan { stdout: !stdout_empty, stderr: !stderr_empty, hash: false }),
        output_plan(None, stdout_empty, stderr_empty, failed, hash_empty)
            == (OutputPlan { stdout: !stdout_empty, stderr: !stderr_empty, hash: false }),
{
}

/// The logs saved for a target's last run.
pub struct OutputLogs {
    pub stdout: String,
    pub stderr: String,
}

/// What follows a subscriber's answer to the event that asks for outputs to be archived
/// or hydrated.
pub struct FollowUp {
    /// The archive whose archived or hydrated event is emitted next, when a subscriber
    /// answered with its path.
    pub archive_path: Option<String>,
    /// Whether the target's run state is saved afterwards.
    pub save_state: bool,
}

/// What follows the archiving event: the archived event, when a subscriber made an archive.
pub fn archive_outputs_follow_up(flow: &EventFlow) -> (r: FollowUp)
    ensures
        opt_view(r.archive_path) == match *flow {
            EventFlow::Return(p) => Some(p@),
            EventFlow::Continue => None,
        },
        !r.save_state,
{
    match flow {
        EventFlow::Return(p) => FollowUp { archive_path: Some(p.clone()), save_state: false },
        EventFlow::Continue => FollowUp { archive_path: None, save_state: false },
    }
}

/// What follows the hydrating event: the hydrated event, when a subscriber answered with
/// an archive; then, either way, the run state (with its hash) is saved.
pub fn hydrate_outputs_follow_up(flow: &EventFlow) -> (r: FollowUp)
    ensures
        opt_view(r.archive_path) == match *flow {
            EventFlow::Return(p) => Some(p@),
            EventFlow::Continue => None,
        },
        r.save_state,
{
    match flow {
        EventFlow::Return(p) => FollowUp { archive_path: Some(p.clone()), save_state: true },
        EventFlow::Continue => FollowUp { archive_path: None, save_state: true },
    }
}

/// What becomes of the outputs after a run.
#[derive(PartialEq, Eq, Structural, Clone, Copy, Debug)]
pub enum ArchiveStep {
    /// Nothing is archived.
    Skip,
    /// The outputs are archived under the run's hash.
    Archive,
}

impl TargetRunner {
    /// A runner for a task of a project in a workspace, with the target's cached state.
    pub fn new(cache: RunTargetState, project: ProjectInfo, task: Task, workspace: WorkspaceInfo) -> (r: TargetRunner)
        ensures
            r == (TargetRunner { cache, project, task, workspace }),
    {
        TargetRunner { cache, project, task, workspace }
    }

    /// The first eight bytes of the hash, or nothing when caching is off.
    pub fn get_short_hash(&self) -> (r: &str)
        requires
            shortenable(self.cache.hash@),
        ensures
            self.cache.hash@.len() == 0 ==> r@.len() == 0,
            self.cache.hash@.len() != 0 ==> encode_utf8(r@) == encode_utf8(self.cache.hash@).subrange(0, 8),
    {
        let hash = self.cache.hash.as_str();
        if hash.is_empty() {
            proof { reveal_strlit(""); }
            ""
        } else {
            let (head, _) = hash.split_at(8);
            head
        }
    }

    /// Whether the target's outputs are archived: build tasks always are, and others when
    /// a configured archivable target names them.
    pub fn is_archivable(&self) -> (r: Result<bool, TargetError>)
        ensures
            r == archivable_by(self.task, self.workspace.runner.archivable_targets@),
    {
        if self.task.is_build_type {
            return Ok(true);
        }
        let targets = &self.workspace.runner.archivable_targets;
        let mut i: usize = 0;
        assert(targets@.skip(0) =~= targets@);
        while i < targets.len()
            invariant
                targets == &self.workspace.runner.archivable_targets,
                !self.task.is_build_type,
                i <= targets.len(),
                archivable_by(self.task, targets@) == archivable_by(self.task, targets@.skip(i as int)),
            decreases targets.len() - i,
        {
            proof {
                assert(targets@.skip(i as int)[0] == targets@[i as int]);
                assert(targets@.skip(i as int).drop_first() =~= targets@.skip(i + 1));
            }
            match &targets[i] {
                Err(e) => {
                    let d = e.duplicate();
                    return Err(d);
                },
                Ok(t) => match &t.project {
                    TargetProjectScope::All => {
                        if crate::text::str_eq(self.task.target.task_id.as_str(), t.task_id.as_str()) {
                            return Ok(true);
                        }
                    },
                    TargetProjectScope::Id(project_id) => {
                        match &self.task.target.project_id {
                            Some(owner_id) => {
                                if crate::text::str_eq(owner_id.as_str(), project_id.as_str())
                                    && crate::text::str_eq(self.task.target.task_id.as_str(), t.task_id.as_str()) {
                                    return Ok(true);
                                }
                            },
                            None => {},
                        }
                    },
                    TargetProjectScope::Deps => {
                        return Err(TargetError::NoProjectDepsInRunContext);
                    },
                    TargetProjectScope::OwnSelf => {
                        return Err(TargetError::NoProjectSelfInRunContext);
                    },
                },
            }
            i = i + 1;
        }
        proof {
            assert(targets@.skip(i as int).len() == 0);
        }
        Ok(false)
    }

    /// Whether the target's command does nothing.
    pub fn is_no_op(&self) -> (r: bool)
        ensures
            r == self.task.is_no_op,
    {
        self.task.is_no_op
    }

    /// Whether every output exists, given whether each one does.
    pub fn has_outputs(&self, output_exists: &Vec<bool>) -> (r: bool)
        ensures
            r == (forall|i: int| 0 <= i < output_exists.len() ==> #[trigger] output_exists@[i]),
    {
        let mut i: usize = 0;
        while i < output_exists.len()
            invariant
                i <= output_exists.len(),
                forall|k: int| 0 <= k < i ==> #[trigger] output_exists@[k],
            decreases output_exists.len() - i,
        {
            if !output_exists[i] {
                return false;
            }
            i = i + 1;
        }
        true
    }

    /// Whether the short hash is shown beside a target's status: not under test, only for
    /// cached tasks, and only when there is a hash.
    pub fn should_print_short_hash(&self, is_test_env: bool) -> (r: bool)
        ensures
            r == (!is_test_env && self.task.options.cache && self.cache.hash@.len() != 0),
    {
        !is_test_env && self.task.options.cache && !self.cache.hash.as_str().is_empty()
    }

    /// Decides what becomes of the outputs after a run: nothing without a hash or when the
    /// target is not archivable; an error naming the first declared output that does not
    /// exist; otherwise they are archived.
    pub fn archive_outputs(&self, output_exists: &Vec<bool>) -> (r: Result<ArchiveStep, RunnerError>)
        requires
            output_exists.len() == self.task.outputs.len(),
        ensures
            self.cache.hash@.len() == 0 ==> r == Ok::<ArchiveStep, RunnerError>(ArchiveStep::Skip),
            self.cache.hash@.len() != 0 ==> match archivable_by(self.task, self.workspace.runner.archivable_targets@) {
                Err(e) => r == Err::<ArchiveStep, RunnerError>(RunnerError::Target(e)),
                Ok(false) => r == Ok::<ArchiveStep, RunnerError>(ArchiveStep::Skip),
                Ok(true) => match r {
                    Ok(step) => step == ArchiveStep::Archive
                        && forall|i: int| 0 <= i < output_exists.len() ==> #[trigger] output_exists@[i],
                    Err(RunnerError::MissingOutput(target, output)) => exists|i: int|
                        0 <= i < output_exists.len() && !#[trigger] output_exists@[i]
                        && output@ == self.task.outputs@[i]@ && target@ == self.task.target.id@
                        && forall|j: int| 0 <= j < i ==> output_exists@[j],
                    Err(RunnerError::Target(_)) => false,
                },
            },
    {
        if self.cache.hash.as_str().is_empty() {
            return Ok(ArchiveStep::Skip);
        }
        match self.is_archivable() {
            Err(e) => {
                return Err(RunnerError::Target(e));
            },
            Ok(false) => {
                return Ok(ArchiveStep::Skip);
            },
            Ok(true) => {},
        }
        let mut i: usize = 0;
        while i < output_exists.len()
            invariant
                output_exists.len() == self.task.outputs.len(),
                self.cache.hash@.len() != 0,
                archivable_by(self.task, self.workspace.runner.archivable_targets@) == Ok::<bool, TargetError>(true),
                i <= output_exists.len(),
                forall|k: int| 0 <= k < i ==> #[trigger] output_exists@[k],
            decreases output_exists.len() - i,
        {
            if !output_exists[i] {
                return Err(RunnerError::MissingOutput(self.task.target.id.clone(), self.task.outputs[i].clone()));
            }
            i = i + 1;
        }
        Ok(ArchiveStep::Archive)
    }

    /// Whether cached outputs are hydrated: only when there is a hash.
    pub fn hydrate_outputs(&self) -> (r: bool)
        ensures
            r == (self.cache.hash@.len() != 0),
    {
        !self.cache.hash.as_str().is_empty()
    }

    /// What is printed of a run's output, by the task's output style.
    pub fn print_output_with_style(&self, stdout_empty: bool, stderr_empty: bool, failed: bool) -> (r: OutputPlan)
        ensures
            r == output_plan(self.task.options.output_style, stdout_empty, stderr_empty, failed, self.cache.hash@.len() == 0),
            self.task.options.output_style == Some(TaskOutputStyle::Hash) ==> !r.stdout && !r.stderr
                && r.hash == (self.cache.hash@.len() != 0),
    {
        let hash_empty = self.cache.hash.as_str().is_empty();
        match self.task.options.output_style {
            Some(TaskOutputStyle::BufferOnlyFailure) => OutputPlan {
                stdout: failed && !stdout_empty,
                stderr: failed && !stderr_empty,
                hash: false,
            },
            Some(TaskOutputStyle::Hash) => OutputPlan { stdout: false, stderr: false, hash: !hash_empty },
            Some(TaskOutputStyle::Nothing) => OutputPlan { stdout: false, stderr: false, hash: false },
            _ => OutputPlan { stdout: !stdout_empty, stderr: !stderr_empty, hash: false },
        }
    }

    /// What is printed of the output saved by the last run: as for a fresh run, which
    /// failed when its exit code was not zero.
    pub fn print_cache_item(&self, stdout_empty: bool, stderr_empty: bool) -> (r: OutputPlan)
        ensures
            r == output_plan(self.task.options.output_style, stdout_empty, stderr_empty, self.cache.exit_code != 0, self.cache.hash@.len() == 0),
    {
        self.print_output_with_style(stdout_empty, stderr_empty, self.cache.exit_code != 0)
    }
}


/// The environment variables set for a target's command.
pub open spec fn moon_env(
    cache_dir: Seq<char>,
    project_id: Seq<char>,
    project_root: Seq<char>,
    project_source: Seq<char>,
    target: Seq<char>,
    toolchain_dir: Seq<char>,
    workspace_root: Seq<char>,
    working_dir: Seq<char>,
    runfile: Seq<char>,
) -> Map<Seq<char>, Seq<char>> {
    Map::empty()
        .insert("MOON_CACHE_DIR"@, cache_dir)
        .insert("MOON_PROJECT_ID"@, project_id)
        .insert("MOON_PROJECT_ROOT"@, project_root)
        .insert("MOON_PROJECT_SOURCE"@, project_source)
        .insert("MOON_TARGET"@, target)
        .insert("MOON_TOOLCHAIN_DIR"@, toolchain_dir)
        .insert("MOON_WORKSPACE_ROOT"@, workspace_root)
        .insert("MOON_WORKING_DIR"@, working_dir)
        .insert("MOON_PROJECT_RUNFILE"@, runfile)
}

/// The touched files that feed a target's hash: in order, those not deleted whose path
/// matches the task's inputs.
pub open spec fn touched_inputs(all: Seq<Seq<char>>, deleted: Seq<Seq<char>>, matches: Seq<bool>) -> Seq<Seq<char>>
    decreases all.len(),
{
    if all.len() == 0 {
        Seq::empty()
    } else {
        let rest = touched_inputs(all.drop_last(), deleted, matches.drop_last());
        if !deleted.contains(all.last()) && matches.last() {
            rest.push(all.last())
        } else {
            rest
        }
    }
}

/// Selects the touched files that feed a target's hash: those not deleted (hashing a
/// deleted file fails) whose path matches the task's inputs.
pub fn filter_touched_inputs(all: &Vec<String>, deleted: &Vec<String>, matches: &Vec<bool>) -> (r: Vec<String>)
    requires
        matches.len() == all.len(),
    ensures
        views(r@) == touched_inputs(views(all@), views(deleted@), matches@),
{
    let mut r: Vec<String> = Vec::new();
    let mut i: usize = 0;
    while i < all.len()
        invariant
            matches.len() == all.len(),
            i <= all.len(),
            views(r@) == touched_inputs(views(all@).take(i as int), views(deleted@), matches@.take(i as int)),
        decreases all.len() - i,
    {
        let mut is_deleted = false;
        let mut j: usize = 0;
        while j < deleted.len()
            invariant
                i < all.len(),
                j <= deleted.len(),
                is_deleted <==> views(deleted@).take(j as int).contains(all@[i as int]@),
            decreases deleted.len() - j,
        {
            if crate::text::str_eq(deleted[j].as_str(), all[i].as_str()) {
                is_deleted = true;
            }
            proof {
                let a = views(deleted@).take(j as int);
                let b = views(deleted@).take(j + 1);
                assert(b =~= a.push(deleted@[j as int]@));
                assert(b.contains(all@[i as int]@) <==> a.contains(all@[i as int]@) || deleted@[j as int]@ == all@[i as int]@) by {
                    if b.contains(all@[i as int]@) {
                        let t = choose|t: int| 0 <= t < b.len() && b[t] == all@[i as int]@;
                        if t < j {
                            assert(a[t] == b[t]);
                        }
                    }
                    if a.contains(all@[i as int]@) {
                        let t = choose|t: int| 0 <= t < a.len() && a[t] == all@[i as int]@;
                        assert(b[t] == a[t]);
                    }
                    if deleted@[j as int]@ == all@[i as int]@ {
                        assert(b[j as int] == all@[i as int]@);
                    }
                }
            }
            j = j + 1;
        }
        proof {
            assert(views(deleted@).take(deleted.len() as int) =~= views(deleted@));
            assert(views(all@).take(i + 1).drop_last() =~= views(all@).take(i as int));
            assert(matches@.take(i + 1).drop_last() =~= matches@.take(i as int));
        }
        let ghost prev = r@;
        if !is_deleted && matches[i] {
            r.push(all[i].clone());
            assert(views(r@) =~= views(prev).push(all@[i as int]@));
        }
        i = i + 1;
    }
    proof {
        assert(views(all@).take(all.len() as int) =~= views(all@));
        assert(matches@.take(all.len() as int) =~= matches@);
    }
    r
}

/// How a target's command is set up, besides the program and base arguments of its platform.
pub struct CommandPlan {
    /// The folder the command runs in.
    pub working_dir: String,
    /// The environment variables set for the command.
    pub env: StringTable,
    /// Whether an unsuccessful exit is turned into an error: never, the runner reads the exit itself.
    pub error_on_failure: bool,
    /// Whether the command keeps terminal colors though piped.
    pub inherit_colors: bool,
    /// The affected files, sorted, when the task asks for them.
    pub affected_files: Vec<String>,
    /// The arguments appended after the platform's, in order: the passed-through ones,
    /// then the affected files, which come last.
    pub args: Vec<String>,
    /// Whether `.` is appended last unless the command already has it: the task takes the
    /// affected files as arguments and none was affected.
    pub dot_if_missing: bool,
}

/// Whether the task takes the affected files in the environment.
pub open spec fn affected_in_env(o: Option<TaskOptionAffectedFiles>) -> bool {
    o == Some(TaskOptionAffectedFiles::Env) || o == Some(TaskOptionAffectedFiles::Both)
}

/// Whether the task takes the affected files as arguments.
pub open spec fn affected_in_args(o: Option<TaskOptionAffectedFiles>) -> bool {
    o == Some(TaskOptionAffectedFiles::Args) || o == Some(TaskOptionAffectedFiles::Both)
}

/// The value of `MOON_AFFECTED_FILES` for the sorted affected files.
pub open spec fn affected_env_value(files: Seq<Seq<char>>) -> Seq<char> {
    if files.len() == 0 {
        "."@
    } else {
        joined(files, ","@)
    }
}

/// Whether `s` is what `get_short_hash` gives for `hash`.
pub open spec fn is_short_hash_of(s: Seq<char>, hash: Seq<char>) -> bool {
    if hash.len() == 0 {
        s.len() == 0
    } else {
        encode_utf8(s) == encode_utf8(hash).subrange(0, 8)
    }
}

/// The comment shown for the attempt number, as in `2/3`.
pub open spec fn attempt_comment(index: u8, total: u8) -> Seq<char> {
    decimal(index as nat) + "/"@ + decimal(total as nat)
}

/// The command line shown before a run.
pub struct CommandLine {
    pub command: String,
    pub args: Vec<String>,
    pub working_dir: String,
}

/// Whether a cached target is known without asking the cache subscribers.
#[derive(PartialEq, Eq, Structural, Clone, Copy, Debug)]
pub enum CacheCheck {
    /// The hash is that of the previous run and its outputs exist.
    PreviousOutput,
    /// The subscribers are asked whether the hash is cached.
    Ask,
}

/// Where outputs are hydrated from, by a subscriber's answer to the cache check.
pub open spec fn hydrate_from_spec(flow: EventFlow) -> Option<HydrateFrom> {
    match flow {
        EventFlow::Return(v) => if v@ == "local-cache"@ {
            Some(HydrateFrom::LocalCache)
        } else if v@ == "remote-cache"@ {
            Some(HydrateFrom::RemoteCache)
        } else {
            None
        },
        EventFlow::Continue => None,
    }
}

/// Reads a subscriber's answer to the cache check: `local-cache` and `remote-cache` name
/// where the outputs are hydrated from; any other answer is a cache miss.
pub fn hydrate_from_flow(flow: &EventFlow) -> (r: Option<HydrateFrom>)
    ensures
        r == hydrate_from_spec(*flow),
{
    match flow {
        EventFlow::Return(v) => {
            if *v == String::from_str("local-cache") {
                Some(HydrateFrom::LocalCache)
            } else if *v == String::from_str("remote-cache") {
                Some(HydrateFrom::RemoteCache)
            } else {
                None
            }
        },
        EventFlow::Continue => None,
    }
}

/// How many runs a task gets: one, and one more for each retry.
pub fn attempt_total(retry_count: u8) -> (r: u8)
    requires
        retry_count < 255,
    ensures
        r == retry_count + 1,
{
    retry_count + 1
}

/// How one run of a target's command ended.
#[derive(PartialEq, Eq, Structural, Clone, Copy, Debug)]
pub enum AttemptOutcome {
    /// The process ran and exited, successfully or not.
    Exited(bool),
    /// The process could not be run.
    SpawnFailed,
}

/// What follows one run.
#[derive(PartialEq, Eq, Structural, Clone, Copy, Debug)]
pub enum AttemptStep {
    /// It succeeded: the target passed.
    Succeeded,
    /// It failed and a retry is left: run again with this attempt number.
    Retry(u8),
    /// It failed and no retry is left: the target failed with the process's error.
    GiveUp,
    /// The process could not run: the target failed without retrying.
    Aborted,
}

/// What follows run `index` of `total`.
pub open spec fn attempt_step(index: u8, total: u8, outcome: AttemptOutcome) -> AttemptStep {
    match outcome {
        AttemptOutcome::Exited(true) => AttemptStep::Succeeded,
        AttemptOutcome::Exited(false) => if index >= total {
            AttemptStep::GiveUp
        } else {
            AttemptStep::Retry((index + 1) as u8)
        },
        AttemptOutcome::SpawnFailed => AttemptStep::Aborted,
    }
}

/// Decides what follows run `index` of `total`: a failed run is retried while runs are left.
pub fn next_attempt(index: u8, total: u8, outcome: AttemptOutcome) -> (r: AttemptStep)
    requires
        1 <= index <= total,
    ensures
        r == attempt_step(index, total, outcome),
{
    match outcome {
        AttemptOutcome::Exited(true) => AttemptStep::Succeeded,
        AttemptOutcome::Exited(false) => {
            if index >= total {
                AttemptStep::GiveUp
            } else {
                AttemptStep::Retry(index + 1)
            }
        },
        AttemptOutcome::SpawnFailed => AttemptStep::Aborted,
    }
}

/// The status a run is recorded with: passed when the process exited successfully.
pub open spec fn attempt_status(outcome: AttemptOutcome) -> ActionStatus {
    if outcome == AttemptOutcome::Exited(true) {
        ActionStatus::Passed
    } else {
        ActionStatus::Failed
    }
}

/// Records the end of run `index` in the action's attempts and decides what follows it.
pub fn record_attempt(attempts: &mut Vec<Attempt>, index: u8, total: u8, outcome: AttemptOutcome) -> (r: AttemptStep)
    requires
        1 <= index <= total,
    ensures
        final(attempts)@ == old(attempts)@.push(Attempt { index, finished: true, status: attempt_status(outcome) }),
        r == attempt_step(index, total, outcome),
{
    let mut attempt = Attempt::new(index);
    let status = match outcome {
        AttemptOutcome::Exited(true) => ActionStatus::Passed,
        _ => ActionStatus::Failed,
    };
    attempt.done(status);
    attempts.push(attempt);
    next_attempt(index, total, outcome)
}

/// The byte length of the longest of `ids`, for aligning streamed output; none when empty.
pub fn longest_target_width(ids: &Vec<String>) -> (r: Option<usize>)
    ensures
        ids.len() == 0 <==> r is None,
        r matches Some(w) ==> {
            &&& exists|i: int| 0 <= i < ids.len() && #[trigger] encode_utf8(ids@[i]@).len() as usize == w
            &&& forall|i: int| 0 <= i < ids.len() ==> #[trigger] encode_utf8(ids@[i]@).len() as usize <= w
        },
{
    let mut best: Option<usize> = None;
    let mut i: usize = 0;
    while i < ids.len()
        invariant
            i <= ids.len(),
            i == 0 <==> best is None,
            best matches Some(w) ==> {
                &&& exists|k: int| 0 <= k < i && #[trigger] encode_utf8(ids@[k]@).len() as usize == w
                &&& forall|k: int| 0 <= k < i ==> #[trigger] encode_utf8(ids@[k]@).len() as usize <= w
            },
        decreases ids.len() - i,
    {
        let w = ids[i].as_str().len();
        let ghost old_best = best;
        best = match best {
            Some(b) => if w > b { Some(w) } else { Some(b) },
            None => Some(w),
        };
        proof {
            assert(encode_utf8(ids@[i as int]@).len() as usize == w);
            if old_best is Some && best == old_best {
                let k = choose|k: int| 0 <= k < i && #[trigger] encode_utf8(ids@[k]@).len() as usize == old_best->0;
                assert(0 <= k < i + 1);
            }
        }
        i = i + 1;
    }
    best
}

/// The phase of running a target.
#[derive(PartialEq, Eq, Structural, Clone, Copy, Debug)]
pub enum RunTargetPhase {
    Start,
    /// The hash is computed and the cache is checked.
    CheckingCache,
    /// The command runs; `archive` says whether its outputs are archived afterwards.
    Running(bool),
    Done,
}

/// What the runner learns between steps.
#[derive(PartialEq, Eq, Structural, Clone, Copy, Debug)]
pub enum RunTargetEvent {
    /// The run begins; whether version control is available.
    Begin(bool),
    /// The cache check ended, with where outputs come from on a hit.
    CacheChecked(Option<HydrateFrom>),
    /// The command ended with a successful run; whether the action's attempts count as passed.
    CommandFinished(bool),
    /// Every run of the command failed, or the process could not run.
    CommandFailed,
}

/// What the runner does next.
pub enum RunTargetAction {
    /// Print the status line with these comments and end with the status.
    Report { hydrate: bool, comments: Vec<String>, status: ActionStatus },
    /// Compute the target's hash and check the caches.
    CheckCache,
    /// Create and run the command.
    RunCommand,
    /// End with the status, archiving the outputs first when asked.
    Finish { archive: bool, status: ActionStatus },
    /// End with the command's error: nothing is archived.
    Fail,
    /// The event does not belong to the phase: nothing happens.
    Ignore,
}

/// The comment shown for a cache hit.
pub open spec fn cached_comment(from: HydrateFrom) -> Seq<char> {
    match from {
        HydrateFrom::LocalCache => "cached"@,
        HydrateFrom::RemoteCache => "cached from remote"@,
        HydrateFrom::PreviousOutput => "cached from previous run"@,
    }
}

impl TargetRunner {
    /// The environment of the target's command: where moon keeps its cache and toolchain,
    /// which project and target run, the workspace and working folders, and the runfile
    /// that holds the project's data.
    pub fn create_env_vars(&self, cache_dir: String, toolchain_dir: String, runfile: String) -> (r: StringTable)
        ensures
            string_table(r) == moon_env(
                cache_dir@,
                self.project.id@,
                self.project.root@,
                self.project.source@,
                self.task.target.id@,
                toolchain_dir@,
                self.workspace.root@,
                self.workspace.working_dir@,
                runfile@,
            ),
    {
        let mut env = string_table_new();
        string_table_insert(&mut env, String::from_str("MOON_CACHE_DIR"), cache_dir);
        string_table_insert(&mut env, String::from_str("MOON_PROJECT_ID"), self.project.id.clone());
        string_table_insert(&mut env, String::from_str("MOON_PROJECT_ROOT"), self.project.root.clone());
        string_table_insert(&mut env, String::from_str("MOON_PROJECT_SOURCE"), self.project.source.clone());
        string_table_insert(&mut env, String::from_str("MOON_TARGET"), self.task.target.id.clone());
        string_table_insert(&mut env, String::from_str("MOON_TOOLCHAIN_DIR"), toolchain_dir);
        string_table_insert(&mut env, String::from_str("MOON_WORKSPACE_ROOT"), self.workspace.root.clone());
        string_table_insert(&mut env, String::from_str("MOON_WORKING_DIR"), self.workspace.working_dir.clone());
        string_table_insert(&mut env, String::from_str("MOON_PROJECT_RUNFILE"), runfile);
        proof {
            assert(string_table(env) =~= moon_env(
                cache_dir@,
                self.project.id@,
                self.project.root@,
                self.project.source@,
                self.task.target.id@,
                toolchain_dir@,
                self.workspace.root@,
                self.workspace.working_dir@,
                runfile@,
            ));
        }
        env
    }

    /// The folder the command runs in: the workspace root when the task asks, else the project root.
    pub fn working_dir(&self) -> (r: String)
        ensures
            r@ == if self.task.options.run_from_workspace_root { self.workspace.root@ } else { self.project.root@ },
    {
        if self.task.options.run_from_workspace_root {
            self.workspace.root.clone()
        } else {
            self.project.root.clone()
        }
    }

    /// Sets up the target's command: its folder; its environment (that of
    /// `create_env_vars`, with `MOON_AFFECTED_FILES` when the task asks for it); an
    /// unsuccessful exit is not an error; colors; and appended arguments: the
    /// passed-through ones when the target inherits them, then, when the task takes
    /// affected files as arguments, those files or `.`. The affected files are those given
    /// when running against affected files, else none, sorted; in the environment they are
    /// a comma-separated list, or `.` when there are none.
    pub fn create_command(
        &self,
        inherit_args: bool,
        passthrough_args: &Vec<String>,
        affected_only: bool,
        affected_files: Vec<String>,
        cache_dir: String,
        toolchain_dir: String,
        runfile: String,
    ) -> (r: CommandPlan)
        ensures
            r.working_dir@ == if self.task.options.run_from_workspace_root { self.workspace.root@ } else { self.project.root@ },
            !r.error_on_failure,
            r.inherit_colors == self.workspace.runner.inherit_colors_for_piped_tasks,
            paths_sorted(views(r.affected_files@)),
            r.affected_files@.to_multiset() == if self.task.options.affected_files is Some && affected_only {
                affected_files@.to_multiset()
            } else {
                Multiset::<String>::empty()
            },
            ({
                let base = moon_env(
                    cache_dir@,
                    self.project.id@,
                    self.project.root@,
                    self.project.source@,
                    self.task.target.id@,
                    toolchain_dir@,
                    self.workspace.root@,
                    self.workspace.working_dir@,
                    runfile@,
                );
                string_table(r.env) == if affected_in_env(self.task.options.affected_files) {
                    base.insert("MOON_AFFECTED_FILES"@, affected_env_value(views(r.affected_files@)))
                } else {
                    base
                }
            }),
            views(r.args@) == (if inherit_args { views(passthrough_args@) } else { Seq::<Seq<char>>::empty() })
                + if affected_in_args(self.task.options.affected_files) {
                    views(r.affected_files@)
                } else {
                    Seq::<Seq<char>>::empty()
                },
            r.dot_if_missing == (affected_in_args(self.task.options.affected_files) && r.affected_files.len() == 0),
    {
        let working_dir = self.working_dir();
        let mut env = self.create_env_vars(cache_dir, toolchain_dir, runfile);
        let mut args = if inherit_args { clone_strings(passthrough_args) } else { Vec::new() };
        let ghost passed = args@;
        proof {
            if !inherit_args {
                assert(views(args@) =~= Seq::<Seq<char>>::empty());
            }
        }
        let mut files: Vec<String> = Vec::new();
        let mut dot = false;
        match self.task.options.affected_files {
            Some(check_affected) => {
                let chosen = if affected_only { affected_files } else { Vec::new() };
                proof {
                    chosen@.to_multiset_ensures();
                    if !affected_only {
                        assert(chosen@.to_multiset() =~= Multiset::<String>::empty());
                    }
                }
                files = sort_paths(chosen);
                let is_env = match check_affected {
                    TaskOptionAffectedFiles::Env | TaskOptionAffectedFiles::Both => true,
                    TaskOptionAffectedFiles::Args => false,
                };
                let is_args = match check_affected {
                    TaskOptionAffectedFiles::Args | TaskOptionAffectedFiles::Both => true,
                    TaskOptionAffectedFiles::Env => false,
                };
                if is_env {
                    let value = if files.len() == 0 { String::from_str(".") } else { join_strings(&files, ",") };
                    string_table_insert(&mut env, String::from_str("MOON_AFFECTED_FILES"), value);
                }
                if is_args {
                    if files.len() == 0 {
                        dot = true;
                        assert(views(files@) =~= Seq::<Seq<char>>::empty());
                        assert(views(args@) =~= views(args@) + Seq::<Seq<char>>::empty());
                    } else {
                        let extra = clone_strings(&files);
                        append_strings(&mut args, &extra);
                    }
                } else {
                    assert(views(args@) =~= views(args@) + Seq::<Seq<char>>::empty());
                }
            },
            None => {
                proof {
                    files@.to_multiset_ensures();
                    assert(files@.to_multiset() =~= Multiset::<String>::empty());
                    assert(views(args@) =~= views(args@) + Seq::<Seq<char>>::empty());
                }
            },
        }
        CommandPlan {
            working_dir,
            env,
            error_on_failure: false,
            inherit_colors: self.workspace.runner.inherit_colors_for_piped_tasks,
            affected_files: files,
            args,
            dot_if_missing: dot,
        }
    }

    /// The text after a checkpoint label: nothing without comments, else the comments
    /// joined by `, ` in parentheses.
    pub fn print_checkpoint(&self, comments: &Vec<String>) -> (r: Option<String>)
        ensures
            comments.len() == 0 <==> r is None,
            r matches Some(s) ==> s@ == "("@ + joined(views(comments@), ", "@) + ")"@,
    {
        if comments.len() == 0 {
            None
        } else {
            let mut s = String::from_str("(");
            let inner = join_strings(comments, ", ");
            s.append(inner.as_str());
            s.append(")");
            Some(s)
        }
    }

    /// The command line shown before a run when the workspace logs running commands: the
    /// task's command with its arguments, then the passed-through ones when inherited,
    /// and the folder it runs in.
    pub fn print_target_command(&self, inherit_args: bool, passthrough_args: &Vec<String>) -> (r: Option<CommandLine>)
        ensures
            r is None <==> !self.workspace.runner.log_running_command,
            r matches Some(c) ==> {
                &&& c.command@ == self.task.command@
                &&& views(c.args@) == views(self.task.args@)
                        + if inherit_args { views(passthrough_args@) } else { Seq::<Seq<char>>::empty() }
                &&& c.working_dir@ == if self.task.options.run_from_workspace_root {
                        self.workspace.root@
                    } else {
                        self.project.root@
                    }
            },
    {
        if !self.workspace.runner.log_running_command {
            return None;
        }
        let mut args = clone_strings(&self.task.args);
        if inherit_args {
            let extra = clone_strings(passthrough_args);
            let ghost a = args@;
            let mut i: usize = 0;
            while i < extra.len()
                invariant
                    i <= extra.len(),
                    views(extra@) == views(passthrough_args@),
                    views(args@) == views(a) + views(extra@).take(i as int),
                decreases extra.len() - i,
            {
                let ghost prev = args@;
                args.push(extra[i].clone());
                proof {
                    assert(views(args@) =~= views(prev).push(extra@[i as int]@));
                    assert(views(extra@).take(i + 1) =~= views(extra@).take(i as int).push(extra@[i as int]@));
                }
                i = i + 1;
            }
            assert(views(extra@).take(extra.len() as int) =~= views(extra@));
        } else {
            assert(views(args@) + Seq::<Seq<char>>::empty() =~= views(args@));
        }
        Some(CommandLine { command: self.task.command.clone(), args, working_dir: self.working_dir() })
    }

    /// The comments beside a run's status line: the attempt number out of the total after
    /// the first attempt, the elapsed time when known, and the short hash when it is shown
    /// and the run has ended.
    pub fn print_target_label(&self, attempt: &Attempt, attempt_total: u8, elapsed: Option<String>, is_test_env: bool) -> (r: Vec<String>)
        requires
            !is_test_env && self.task.options.cache && attempt.finished ==> shortenable(self.cache.hash@),
        ensures
            ({
                let a: int = if attempt.index > 1 { 1 } else { 0 };
                let d: int = if elapsed is Some { 1 } else { 0 };
                let h: int = if !is_test_env && self.task.options.cache && self.cache.hash@.len() != 0 && attempt.finished { 1 } else { 0 };
                &&& r.len() == a + d + h
                &&& a == 1 ==> r@[0]@ == attempt_comment(attempt.index, attempt_total)
                &&& d == 1 ==> r@[a]@ == elapsed->0@
                &&& h == 1 ==> is_short_hash_of(r@[a + d]@, self.cache.hash@)
            }),
    {
        let mut comments: Vec<String> = Vec::new();
        if attempt.index > 1 {
            let mut c = decimal_string(attempt.index as u64);
            c.append("/");
            let t = decimal_string(attempt_total as u64);
            c.append(t.as_str());
            comments.push(c);
        }
        match elapsed {
            Some(e) => {
                comments.push(e);
            },
            None => {},
        }
        if self.should_print_short_hash(is_test_env) && attempt.finished {
            comments.push(self.get_short_hash().to_owned());
        }
        comments
    }

    /// The checkpoint a finished run is reported under.
    pub fn finished_checkpoint(&self, success: bool) -> (r: Checkpoint)
        ensures
            r == if success { Checkpoint::RunPassed } else { Checkpoint::RunFailed },
    {
        if success {
            Checkpoint::RunPassed
        } else {
            Checkpoint::RunFailed
        }
    }

    /// Checks the computed hash against the last run. The hash is first recorded for the
    /// target in the run's table of target hashes. When the hash is the last run's and the
    /// outputs exist, the previous outputs are reused; otherwise the hash becomes the
    /// target's, its manifest is written and the cache subscribers are asked.
    pub fn is_cached(&mut self, target_hashes: &mut StringTable, hash: String, has_outputs: bool) -> (r: CacheCheck)
        ensures
            string_table(*final(target_hashes)) == string_table(*old(target_hashes)).insert(old(self).task.target.id@, hash@),
            old(self).cache.hash@ == hash@ && has_outputs ==> r == CacheCheck::PreviousOutput && *final(self) == *old(self),
            !(old(self).cache.hash@ == hash@ && has_outputs) ==> {
                &&& r == CacheCheck::Ask
                &&& final(self).cache.hash == hash
                &&& final(self).cache.exit_code == old(self).cache.exit_code
                &&& final(self).cache.last_run_time == old(self).cache.last_run_time
                &&& final(self).project == old(self).project
                &&& final(self).task == old(self).task
                &&& final(self).workspace == old(self).workspace
            },
    {
        string_table_insert(target_hashes, self.task.target.id.clone(), hash.clone());
        if self.cache.hash == hash && has_outputs {
            return CacheCheck::PreviousOutput;
        }
        self.cache.hash = hash;
        CacheCheck::Ask
    }

    /// Whether the command's output is streamed: as the task's output style says, or,
    /// without one, for primary targets and in continuous integration.
    pub fn should_stream_output(&self, is_primary: bool, is_real_ci: bool) -> (r: bool)
        ensures
            r == match self.task.options.output_style {
                Some(style) => style == TaskOutputStyle::Stream,
                None => is_primary || is_real_ci,
            },
    {
        match self.task.options.output_style {
            Some(style) => style == TaskOutputStyle::Stream,
            None => is_primary || is_real_ci,
        }
    }

    /// The prefix of streamed lines: the target, when runs may interleave (in continuous
    /// integration, for dependencies, or with several primary targets).
    pub fn stream_prefix(&self, is_primary: bool, is_real_ci: bool, primary_count: usize) -> (r: Option<String>)
        ensures
            opt_view(r) == if is_real_ci || !is_primary || primary_count > 1 {
                Some(self.task.target.id@)
            } else {
                None
            },
    {
        if is_real_ci || !is_primary || primary_count > 1 {
            Some(self.task.target.id.clone())
        } else {
            None
        }
    }

    /// Records the end of the successful run that ends the retries: its exit code (0 when
    /// the process gave none) and time, and its output as the logs saved for the target;
    /// the output of earlier, failed runs is not kept.
    pub fn record_run(&mut self, exit_code: Option<i32>, now: u128, stdout: String, stderr: String) -> (logs: OutputLogs)
        ensures
            final(self).cache.exit_code == match exit_code { Some(c) => c, None => 0 },
            final(self).cache.last_run_time == now,
            final(self).cache.hash == old(self).cache.hash,
            final(self).project == old(self).project,
            final(self).task == old(self).task,
            final(self).workspace == old(self).workspace,
            logs.stdout == stdout,
            logs.stderr == stderr,
    {
        self.cache.exit_code = match exit_code {
            Some(c) => c,
            None => 0,
        };
        self.cache.last_run_time = now;
        OutputLogs { stdout, stderr }
    }

    /// One step of running a target. A no-op target passes at once. Otherwise, when the
    /// task is cached and version control is available, the cache is checked: a hit
    /// hydrates the outputs unless they come from the previous run and ends as cached (from
    /// the remote when so); a miss runs the command, whose outputs are then archived when it
    /// passes. Without caching the command runs and nothing is archived. A command whose runs
    /// all failed ends the target with its error, and nothing is archived.
    pub fn run_target_step(&self, phase: RunTargetPhase, event: RunTargetEvent, is_test_env: bool) -> (r: (RunTargetPhase, RunTargetAction))
        requires
            (phase == RunTargetPhase::CheckingCache && (event matches RunTargetEvent::CacheChecked(Some(_)))
                && !is_test_env && self.task.options.cache) ==> shortenable(self.cache.hash@),
        ensures
            match (phase, event) {
                (RunTargetPhase::Start, RunTargetEvent::Begin(vcs_enabled)) => if self.task.is_no_op {
                    r.0 == RunTargetPhase::Done && match r.1 {
                        RunTargetAction::Report { hydrate, comments, status } =>
                            !hydrate && status == ActionStatus::Passed && views(comments@) == seq!["no op"@],
                        _ => false,
                    }
                } else if self.task.options.cache && vcs_enabled {
                    r.0 == RunTargetPhase::CheckingCache && r.1 is CheckCache
                } else {
                    r.0 == RunTargetPhase::Running(false) && r.1 is RunCommand
                },
                (RunTargetPhase::CheckingCache, RunTargetEvent::CacheChecked(Some(from))) =>
                    r.0 == RunTargetPhase::Done && match r.1 {
                        RunTargetAction::Report { hydrate, comments, status } => {
                            &&& hydrate == (from != HydrateFrom::PreviousOutput)
                            &&& status == if from == HydrateFrom::RemoteCache {
                                    ActionStatus::CachedFromRemote
                                } else {
                                    ActionStatus::Cached
                                }
                            &&& comments@.len() >= 1 && comments@[0]@ == cached_comment(from)
                            &&& if !is_test_env && self.task.options.cache && self.cache.hash@.len() != 0 {
                                    comments@.len() == 2 && is_short_hash_of(comments@[1]@, self.cache.hash@)
                                } else {
                                    comments@.len() == 1
                                }
                        },
                        _ => false,
                    },
                (RunTargetPhase::CheckingCache, RunTargetEvent::CacheChecked(None)) =>
                    r.0 == RunTargetPhase::Running(true) && r.1 is RunCommand,
                (RunTargetPhase::Running(archive), RunTargetEvent::CommandFinished(passed)) =>
                    r.0 == RunTargetPhase::Done && match r.1 {
                        RunTargetAction::Finish { archive: a, status } =>
                            a == (archive && passed) && status == if passed { ActionStatus::Passed } else { ActionStatus::Failed },
                        _ => false,
                    },
                (RunTargetPhase::Running(_), RunTargetEvent::CommandFailed) =>
                    r.0 == RunTargetPhase::Done && r.1 is Fail,
                _ => r.0 == phase && r.1 is Ignore,
            },
    {
        match (phase, event) {
            (RunTargetPhase::Start, RunTargetEvent::Begin(vcs_enabled)) => {
                if self.is_no_op() {
                    let mut comments: Vec<String> = Vec::new();
                    comments.push(String::from_str("no op"));
                    assert(views(comments@) =~= seq!["no op"@]);
                    (RunTargetPhase::Done, RunTargetAction::Report { hydrate: false, comments, status: ActionStatus::Passed })
                } else if self.task.options.cache && vcs_enabled {
                    (RunTargetPhase::CheckingCache, RunTargetAction::CheckCache)
                } else {
                    (RunTargetPhase::Running(false), RunTargetAction::RunCommand)
                }
            },
            (RunTargetPhase::CheckingCache, RunTargetEvent::CacheChecked(Some(from))) => {
                let hydrate = match from {
                    HydrateFrom::LocalCache | HydrateFrom::RemoteCache => true,
                    HydrateFrom::PreviousOutput => false,
                };
                let mut comments: Vec<String> = Vec::new();
                comments.push(match from {
                    HydrateFrom::LocalCache => String::from_str("cached"),
                    HydrateFrom::RemoteCache => String::from_str("cached from remote"),
                    HydrateFrom::PreviousOutput => String::from_str("cached from previous run"),
                });
                if self.should_print_short_hash(is_test_env) {
                    comments.push(self.get_short_hash().to_owned());
                }
                let status = match from {
                    HydrateFrom::RemoteCache => ActionStatus::CachedFromRemote,
                    _ => ActionStatus::Cached,
                };
                (RunTargetPhase::Done, RunTargetAction::Report { hydrate, comments, status })
            },
            (RunTargetPhase::CheckingCache, RunTargetEvent::CacheChecked(None)) => {
                (RunTargetPhase::Running(true), RunTargetAction::RunCommand)
            },
            (RunTargetPhase::Running(archive), RunTargetEvent::CommandFinished(passed)) => {
                let status = if passed { ActionStatus::Passed } else { ActionStatus::Failed };
                (RunTargetPhase::Done, RunTargetAction::Finish { archive: archive && passed, status })
            },
            (RunTargetPhase::Running(_), RunTargetEvent::CommandFailed) => {
                (RunTargetPhase::Done, RunTargetAction::Fail)
            },
            _ => (phase, RunTargetAction::Ignore),
        }
    }
}

/// Appends a copy of each of `extra` to `v`.
fn append_strings(v: &mut Vec<String>, extra: &Vec<String>)
    ensures
        views(final(v)@) == views(old(v)@) + views(extra@),
{
    let ghost start = v@;
    let mut i: usize = 0;
    while i < extra.len()
        invariant
            i <= extra.len(),
            views(v@) == views(start) + views(extra@).take(i as int),
        decreases extra.len() - i,
    {
        let ghost prev = v@;
        v.push(extra[i].clone());
        proof {
            assert(views(v@) =~= views(prev).push(extra@[i as int]@));
            assert(views(extra@).take(i + 1) =~= views(extra@).take(i as int).push(extra@[i as int]@));
        }
        i = i + 1;
    }
    assert(views(extra@).take(extra.len() as int) =~= views(extra@));
}

/// A copy of each string.
fn clone_strings(v: &Vec<String>) -> (r: Vec<String>)
    ensures
        r@ == v@,
{
    let mut r: Vec<String> = Vec::new();
    let mut i: usize = 0;
    while i < v.len()
        invariant
            i <= v.len(),
            r@ == v@.take(i as int),
        decreases v.len() - i,
    {
        r.push(v[i].clone());
        assert(v@.take(i + 1) =~= v@.take(i as int).push(v@[i as int]));
        i = i + 1;
    }
    assert(v@.take(v.len() as int) =~= v@);
    r
}


/// Replays `next_attempt` from run `index` of `total` over the ends of successive runs:
/// how many runs happen, and what follows the last (`Retry` when the outcomes run out first).
pub open spec fn run_attempts(index: u8, total: u8, outcomes: Seq<AttemptOutcome>) -> (nat, AttemptStep)
    decreases outcomes.len(),
{
    if outcomes.len() == 0 {
        (0, AttemptStep::Retry(index))
    } else {
        match attempt_step(index, total, outcomes[0]) {
            AttemptStep::Retry(next) => {
                let rest = run_attempts(next, total, outcomes.drop_first());
                (rest.0 + 1, rest.1)
            },
            step => (1, step),
        }
    }
}

/// A target's command runs at most as many times as it has runs: from run `index` of
/// `total`, at most `total - index + 1` more.
pub proof fn law_attempts_bounded(index: u8, total: u8, outcomes: Seq<AttemptOutcome>)
    requires
        1 <= index <= total,
    ensures
        run_attempts(index, total, outcomes).0 <= total - index + 1,
    decreases outcomes.len(),
{
    if outcomes.len() > 0 {
        if let AttemptStep::Retry(next) = attempt_step(index, total, outcomes[0]) {
            law_attempts_bounded(next, total, outcomes.drop_first());
        }
    }
}

/// A command that keeps failing is run exactly as many times as the task allows, and then
/// the target fails.
pub proof fn law_failures_exhaust_retries(index: u8, total: u8, outcomes: Seq<AttemptOutcome>)
    requires
        1 <= index <= total,
        outcomes.len() >= total - index + 1,
        forall|i: int| 0 <= i < outcomes.len() ==> outcomes[i] == AttemptOutcome::Exited(false),
    ensures
        run_attempts(index, total, outcomes) == (((total - index + 1) as nat), AttemptStep::GiveUp),
    decreases outcomes.len(),
{
    if index < total {
        assert(attempt_step(index, total, outcomes[0]) == AttemptStep::Retry((index + 1) as u8));
        law_failures_exhaust_retries((index + 1) as u8, total, outcomes.drop_first());
    }
}

/// The first successful run ends the retries, and the target passes, when it comes within
/// the runs allowed and every earlier run exited unsuccessfully.
pub proof fn law_first_success_passes(index: u8, total: u8, outcomes: Seq<AttemptOutcome>, k: int)
    requires
        1 <= index <= total,
        0 <= k < outcomes.len(),
        k <= total - index,
        outcomes[k] == AttemptOutcome::Exited(true),
        forall|i: int| 0 <= i < k ==> outcomes[i] == AttemptOutcome::Exited(false),
    ensures
        run_attempts(index, total, outcomes) == (((k + 1) as nat), AttemptStep::Succeeded),
    decreases k,
{
    if k > 0 {
        assert(attempt_step(index, total, outcomes[0]) == AttemptStep::Retry((index + 1) as u8));
        let rest = outcomes.drop_first();
        assert forall|i: int| 0 <= i < k - 1 implies rest[i] == AttemptOutcome::Exited(false) by {
            assert(rest[i] == outcomes[i + 1]);
        }
        law_first_success_passes((index + 1) as u8, total, rest, k - 1);
    }
}

/// The attempts recorded by replaying `record_attempt` from run `index` of `total` over the
/// ends of successive runs.
pub open spec fn attempt_log(index: u8, total: u8, outcomes: Seq<AttemptOutcome>) -> Seq<Attempt>
    decreases outcomes.len(),
{
    if outcomes.len() == 0 {
        Seq::empty()
    } else {
        let first = Attempt { index, finished: true, status: attempt_status(outcomes[0]) };
        match attempt_step(index, total, outcomes[0]) {
            AttemptStep::Retry(next) => seq![first] + attempt_log(next, total, outcomes.drop_first()),
            _ => seq![first],
        }
    }
}

proof fn lemma_attempt_log(index: u8, total: u8, outcomes: Seq<AttemptOutcome>)
    requires
        1 <= index <= total,
        run_attempts(index, total, outcomes).1 == AttemptStep::Succeeded,
    ensures
        ({
            let log = attempt_log(index, total, outcomes);
            let n = log.len();
            &&& n == run_attempts(index, total, outcomes).0
            &&& 1 <= n <= total - index + 1
            &&& forall|i: int| 0 <= i < n ==> #[trigger] log[i].index == index + i && log[i].finished
            &&& forall|i: int| 0 <= i < n - 1 ==> #[trigger] log[i].status == ActionStatus::Failed
            &&& log[n - 1].status == ActionStatus::Passed
        }),
    decreases outcomes.len(),
{
    let step = attempt_step(index, total, outcomes[0]);
    if let AttemptStep::Retry(next) = step {
        let rest = outcomes.drop_first();
        lemma_attempt_log(next, total, rest);
        let tail = attempt_log(next, total, rest);
        let log = attempt_log(index, total, outcomes);
        assert(log == seq![Attempt { index, finished: true, status: attempt_status(outcomes[0]) }] + tail);
        assert(next == index + 1);
        assert forall|i: int| 0 <= i < log.len() implies #[trigger] log[i].index == index + i && log[i].finished by {
            if i > 0 {
                assert(log[i] == tail[i - 1]);
                assert(tail[i - 1].index == next + (i - 1));
            }
        }
        assert forall|i: int| 0 <= i < log.len() - 1 implies #[trigger] log[i].status == ActionStatus::Failed by {
            if i > 0 {
                assert(log[i] == tail[i - 1]);
            }
        }
        assert(log[log.len() - 1] == tail[tail.len() - 1]);
    }
}

/// The attempts of a target whose command passed: between one and as many as its runs,
/// numbered from 1 in order, each ended, every one failed but the last, which passed.
pub proof fn law_attempts_of_a_passed_run(total: u8, outcomes: Seq<AttemptOutcome>)
    requires
        1 <= total,
        run_attempts(1, total, outcomes).1 == AttemptStep::Succeeded,
    ensures
        ({
            let log = attempt_log(1, total, outcomes);
            let n = log.len();
            &&& 1 <= n <= total
            &&& forall|i: int| 0 <= i < n ==> #[trigger] log[i].index == i + 1 && log[i].finished
            &&& forall|i: int| 0 <= i < n - 1 ==> #[trigger] log[i].status == ActionStatus::Failed
            &&& log[n - 1].status == ActionStatus::Passed
        }),
{
    lemma_attempt_log(1, total, outcomes);
    let log = attempt_log(1, total, outcomes);
    assert forall|i: int| 0 <= i < log.len() implies #[trigger] log[i].index == i + 1 && log[i].finished by {
        assert(log[i].index == 1 + i);
    }
}

/// The remote subscriber's answer to a cache check after finding the archive is read by
/// the runner as a hit in the remote cache, so the outputs are hydrated from there.
pub proof fn law_remote_answer_hydrates_from_remote(v: String)
    requires
        v@ == "remote-cache"@,
    ensures
        hydrate_from_spec(EventFlow::Return(v)) == Some(HydrateFrom::RemoteCache),
{
    reveal_strlit("local-cache");
    reveal_strlit("remote-cache");
    assert("local-cache"@[0] != "remote-cache"@[0]);
}

}
