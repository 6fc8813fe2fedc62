use moon_actions::action::{ActionStatus, Attempt, Checkpoint};
use moon_actions::emitter::EventFlow;
use rustc_hash::FxHashMap;
use moon_actions::runner::{
    archive_outputs_follow_up, attempt_total, filter_touched_inputs, hydrate_from_flow, hydrate_outputs_follow_up,
    longest_target_width, next_attempt, record_attempt, ArchiveStep, AttemptOutcome, AttemptStep, CacheCheck, HydrateFrom, OutputPlan, ProjectInfo, RunTargetAction,
    RunTargetEvent, RunTargetPhase, RunTargetState, RunnerError, RunnerSettings, TargetRunner, WorkspaceInfo,
};
use moon_actions::task::{
    PlatformType, Target, TargetError, TargetProjectScope, Task, TaskOptionAffectedFiles, TaskOptions, TaskOutputStyle,
};

fn strings(items: &[&str]) -> Vec<String> {
    items.iter().map(|s| s.to_string()).collect()
}

fn target(id: &str, project: TargetProjectScope, project_id: Option<&str>, task_id: &str) -> Target {
    Target { id: id.to_string(), project, project_id: project_id.map(|s| s.to_string()), task_id: task_id.to_string() }
}

fn runner(hash: &str) -> TargetRunner {
    TargetRunner::new(
        RunTargetState { exit_code: 0, hash: hash.to_string(), last_run_time: 0 },
        ProjectInfo { id: "app".into(), root: "/repo/apps/app".into(), source: "apps/app".into() },
        Task {
            args: strings(&["--mode", "prod"]),
            command: "vite".into(),
            options: TaskOptions {
                affected_files: None,
                cache: true,
                output_style: None,
                retry_count: 2,
                run_from_workspace_root: false,
            },
            outputs: strings(&["dist", "types"]),
            platform: PlatformType::Node,
            target: target("app:build", TargetProjectScope::Id("app".into()), Some("app"), "build"),
            is_build_type: false,
            is_no_op: false,
        },
        WorkspaceInfo {
            root: "/repo".into(),
            working_dir: "/repo/apps".into(),
            runner: RunnerSettings { archivable_targets: vec![], inherit_colors_for_piped_tasks: true, log_running_command: true },
        },
    )
}

#[test]
fn short_hash_is_first_eight_characters() {
    assert_eq!(runner("abcdef0123456789").get_short_hash(), "abcdef01");
    assert_eq!(runner("").get_short_hash(), "");
}

#[test]
fn build_tasks_are_archivable() {
    let mut r = runner("h");
    r.task.is_build_type = true;
    assert!(matches!(r.is_archivable(), Ok(true)));
}

#[test]
fn archivable_targets_are_matched_in_order() {
    let mut r = runner("h");
    assert!(matches!(r.is_archivable(), Ok(false)));
    r.workspace.runner.archivable_targets = vec![Ok(target(":lint", TargetProjectScope::All, None, "lint"))];
    assert!(matches!(r.is_archivable(), Ok(false)));
    r.workspace.runner.archivable_targets.push(Ok(target(":build", TargetProjectScope::All, None, "build")));
    assert!(matches!(r.is_archivable(), Ok(true)));
    r.workspace.runner.archivable_targets =
        vec![Ok(target("app:build", TargetProjectScope::Id("app".into()), Some("app"), "build"))];
    assert!(matches!(r.is_archivable(), Ok(true)));
    r.workspace.runner.archivable_targets =
        vec![Ok(target("web:build", TargetProjectScope::Id("web".into()), Some("web"), "build"))];
    assert!(matches!(r.is_archivable(), Ok(false)));
}

#[test]
fn dependency_and_self_scopes_are_errors() {
    let mut r = runner("h");
    r.workspace.runner.archivable_targets = vec![Ok(target("^:build", TargetProjectScope::Deps, None, "build"))];
    assert!(matches!(r.is_archivable(), Err(TargetError::NoProjectDepsInRunContext)));
    r.workspace.runner.archivable_targets = vec![Ok(target("~:build", TargetProjectScope::OwnSelf, None, "build"))];
    assert!(matches!(r.is_archivable(), Err(TargetError::NoProjectSelfInRunContext)));
    r.workspace.runner.archivable_targets =
        vec![Err(TargetError::InvalidFormat("bad".into())), Ok(target(":build", TargetProjectScope::All, None, "build"))];
    match r.is_archivable() {
        Err(TargetError::InvalidFormat(s)) => assert_eq!(s, "bad"),
        _ => panic!("expected the parse error"),
    }
}

#[test]
fn archive_needs_a_hash_and_all_outputs() {
    let mut r = runner("");
    r.task.is_build_type = true;
    assert!(matches!(r.archive_outputs(&vec![false, false]), Ok(ArchiveStep::Skip)));
    let mut r = runner("abc");
    r.task.is_build_type = true;
    assert!(matches!(r.archive_outputs(&vec![true, true]), Ok(ArchiveStep::Archive)));
    match r.archive_outputs(&vec![true, false]) {
        Err(RunnerError::MissingOutput(t, o)) => {
            assert_eq!(t, "app:build");
            assert_eq!(o, "types");
        }
        _ => panic!("expected a missing output"),
    }
    r.task.is_build_type = false;
    assert!(matches!(r.archive_outputs(&vec![false, false]), Ok(ArchiveStep::Skip)));
}

#[test]
fn hydration_needs_a_hash() {
    assert!(runner("abc").hydrate_outputs());
    assert!(!runner("").hydrate_outputs());
}

#[test]
fn outputs_exist_only_when_all_do() {
    let r = runner("abc");
    assert!(r.has_outputs(&vec![true, true]));
    assert!(!r.has_outputs(&vec![true, false]));
    assert!(r.has_outputs(&vec![]));
}

#[test]
fn output_styles() {
    let mut r = runner("abc");
    assert_eq!(r.print_output_with_style(false, false, false), OutputPlan { stdout: true, stderr: true, hash: false });
    assert_eq!(r.print_output_with_style(true, false, false), OutputPlan { stdout: false, stderr: true, hash: false });
    r.task.options.output_style = Some(TaskOutputStyle::BufferOnlyFailure);
    assert_eq!(r.print_output_with_style(false, false, false), OutputPlan { stdout: false, stderr: false, hash: false });
    assert_eq!(r.print_output_with_style(false, false, true), OutputPlan { stdout: true, stderr: true, hash: false });
    r.task.options.output_style = Some(TaskOutputStyle::Hash);
    assert_eq!(r.print_output_with_style(false, false, true), OutputPlan { stdout: false, stderr: false, hash: true });
    r.task.options.output_style = Some(TaskOutputStyle::Nothing);
    assert_eq!(r.print_output_with_style(false, false, true), OutputPlan { stdout: false, stderr: false, hash: false });
    r.task.options.output_style = Some(TaskOutputStyle::BufferOnlyFailure);
    r.cache.exit_code = 1;
    assert_eq!(r.print_cache_item(false, true), OutputPlan { stdout: true, stderr: false, hash: false });
}

#[test]
fn short_hash_printing_rules() {
    let r = runner("abc");
    assert!(r.should_print_short_hash(false));
    assert!(!r.should_print_short_hash(true));
    assert!(!runner("").should_print_short_hash(false));
}

#[test]
fn environment_of_the_command() {
    let r = runner("abc");
    let env = r.create_env_vars("/repo/.moon/cache".into(), "/home/u/.moon/tools".into(), "/repo/.moon/cache/runfile.json".into());
    assert_eq!(env.len(), 9);
    assert_eq!(env.get("MOON_CACHE_DIR").map(|s| s.as_str()), Some("/repo/.moon/cache"));
    assert_eq!(env.get("MOON_PROJECT_ID").map(|s| s.as_str()), Some("app"));
    assert_eq!(env.get("MOON_PROJECT_ROOT").map(|s| s.as_str()), Some("/repo/apps/app"));
    assert_eq!(env.get("MOON_PROJECT_SOURCE").map(|s| s.as_str()), Some("apps/app"));
    assert_eq!(env.get("MOON_TARGET").map(|s| s.as_str()), Some("app:build"));
    assert_eq!(env.get("MOON_TOOLCHAIN_DIR").map(|s| s.as_str()), Some("/home/u/.moon/tools"));
    assert_eq!(env.get("MOON_WORKSPACE_ROOT").map(|s| s.as_str()), Some("/repo"));
    assert_eq!(env.get("MOON_WORKING_DIR").map(|s| s.as_str()), Some("/repo/apps"));
    assert_eq!(env.get("MOON_PROJECT_RUNFILE").map(|s| s.as_str()), Some("/repo/.moon/cache/runfile.json"));
}

fn command(r: &TargetRunner, inherit: bool, passthrough: &[&str], affected_only: bool, files: &[&str]) -> moon_actions::runner::CommandPlan {
    r.create_command(
        inherit,
        &strings(passthrough),
        affected_only,
        strings(files),
        "/repo/.moon/cache".into(),
        "/home/u/.moon/tools".into(),
        "/repo/.moon/cache/runfile.json".into(),
    )
}

#[test]
fn command_without_affected_files() {
    let r = runner("abc");
    let plan = command(&r, true, &["--watch"], true, &["b.ts"]);
    assert_eq!(plan.working_dir, "/repo/apps/app");
    assert_eq!(plan.args, strings(&["--watch"]));
    assert!(!plan.error_on_failure);
    assert!(plan.inherit_colors);
    assert!(plan.affected_files.is_empty());
    assert!(!plan.dot_if_missing);
    assert_eq!(plan.env.len(), 9);
    assert_eq!(plan.env.get("MOON_TARGET").map(|s| s.as_str()), Some("app:build"));
    assert!(plan.env.get("MOON_AFFECTED_FILES").is_none());
    let plan = command(&r, false, &["--watch"], true, &[]);
    assert!(plan.args.is_empty());
}

#[test]
fn command_with_affected_files() {
    let mut r = runner("abc");
    r.task.options.affected_files = Some(TaskOptionAffectedFiles::Both);
    r.task.options.run_from_workspace_root = true;
    let plan = command(&r, true, &["--fix"], true, &["src/b.ts", "src/a.ts"]);
    assert_eq!(plan.working_dir, "/repo");
    assert_eq!(plan.affected_files, strings(&["src/a.ts", "src/b.ts"]));
    assert_eq!(plan.env.get("MOON_AFFECTED_FILES").map(|s| s.as_str()), Some("src/a.ts,src/b.ts"));
    assert_eq!(plan.env.get("MOON_PROJECT_ID").map(|s| s.as_str()), Some("app"));
    assert_eq!(plan.args, strings(&["--fix", "src/a.ts", "src/b.ts"]));
    assert!(!plan.dot_if_missing);
    let plan = command(&r, false, &[], false, &["src/b.ts"]);
    assert_eq!(plan.env.get("MOON_AFFECTED_FILES").map(|s| s.as_str()), Some("."));
    assert!(plan.args.is_empty());
    assert!(plan.dot_if_missing);
    r.task.options.affected_files = Some(TaskOptionAffectedFiles::Env);
    let plan = command(&r, false, &[], true, &["x"]);
    assert_eq!(plan.env.get("MOON_AFFECTED_FILES").map(|s| s.as_str()), Some("x"));
    assert!(plan.args.is_empty());
    assert!(!plan.dot_if_missing);
    r.task.options.affected_files = Some(TaskOptionAffectedFiles::Args);
    let plan = command(&r, false, &[], true, &["x"]);
    assert!(plan.env.get("MOON_AFFECTED_FILES").is_none());
    assert_eq!(plan.args, strings(&["x"]));
}

#[test]
fn affected_files_sort_by_components() {
    let mut r = runner("abc");
    r.task.options.affected_files = Some(TaskOptionAffectedFiles::Args);
    let plan = command(&r, false, &[], true, &["a-c", "a/b"]);
    assert_eq!(plan.args, strings(&["a/b", "a-c"]));
}

#[test]
fn touched_inputs_skip_deleted_and_unmatched() {
    let all = strings(&["a.ts", "b.ts", "c.md", "d.ts"]);
    let deleted = strings(&["b.ts"]);
    let matches = vec![true, true, false, true];
    assert_eq!(filter_touched_inputs(&all, &deleted, &matches), strings(&["a.ts", "d.ts"]));
}

#[test]
fn checkpoint_comments() {
    let r = runner("abc");
    assert_eq!(r.print_checkpoint(&vec![]), None);
    assert_eq!(r.print_checkpoint(&strings(&["cached", "abc"])).as_deref(), Some("(cached, abc)"));
}

#[test]
fn target_command_line() {
    let r = runner("abc");
    let line = match r.print_target_command(true, &strings(&["--fix"])) {
        Some(l) => l,
        None => panic!("expected a line"),
    };
    assert_eq!(line.command, "vite");
    assert_eq!(line.args, strings(&["--mode", "prod", "--fix"]));
    assert_eq!(line.working_dir, "/repo/apps/app");
    let mut quiet = runner("abc");
    quiet.workspace.runner.log_running_command = false;
    assert!(quiet.print_target_command(true, &vec![]).is_none());
}

#[test]
fn label_comments() {
    let r = runner("0123456789abcdef");
    let mut attempt = Attempt::new(2);
    assert_eq!(r.print_target_label(&attempt, 3, Some("1.2s".into()), false), strings(&["2/3", "1.2s"]));
    attempt.done(ActionStatus::Passed);
    assert_eq!(attempt.status, ActionStatus::Passed);
    assert_eq!(r.print_target_label(&attempt, 3, None, false), strings(&["2/3", "01234567"]));
    assert_eq!(r.print_target_label(&Attempt::new(1), 1, None, false), Vec::<String>::new());
    assert!(r.print_target_label(&attempt, 3, None, true) == strings(&["2/3"]));
    assert_eq!(r.finished_checkpoint(true), Checkpoint::RunPassed);
    assert_eq!(r.finished_checkpoint(false), Checkpoint::RunFailed);
}

#[test]
fn cache_check_reuses_previous_outputs() {
    let mut r = runner("same");
    let mut hashes: FxHashMap<String, String> = FxHashMap::default();
    hashes.insert("web:build".to_string(), "w".to_string());
    assert_eq!(r.is_cached(&mut hashes, "same".into(), true), CacheCheck::PreviousOutput);
    assert_eq!(r.cache.hash, "same");
    assert_eq!(hashes.get("app:build").map(|s| s.as_str()), Some("same"));
    assert_eq!(hashes.get("web:build").map(|s| s.as_str()), Some("w"));
    assert_eq!(r.is_cached(&mut hashes, "same".into(), false), CacheCheck::Ask);
    assert_eq!(r.is_cached(&mut hashes, "new".into(), true), CacheCheck::Ask);
    assert_eq!(r.cache.hash, "new");
    assert_eq!(hashes.get("app:build").map(|s| s.as_str()), Some("new"));
    assert_eq!(hashes.len(), 2);
}

#[test]
fn follow_up_events() {
    let f = archive_outputs_follow_up(&EventFlow::Return("/cache/out/abc.tar.gz".into()));
    assert_eq!(f.archive_path.as_deref(), Some("/cache/out/abc.tar.gz"));
    assert!(!f.save_state);
    let f = archive_outputs_follow_up(&EventFlow::Continue);
    assert!(f.archive_path.is_none());
    let f = hydrate_outputs_follow_up(&EventFlow::Return("/cache/out/abc.tar.gz".into()));
    assert_eq!(f.archive_path.as_deref(), Some("/cache/out/abc.tar.gz"));
    assert!(f.save_state);
    let f = hydrate_outputs_follow_up(&EventFlow::Continue);
    assert!(f.archive_path.is_none());
    assert!(f.save_state);
}

#[test]
fn subscriber_answers() {
    assert_eq!(hydrate_from_flow(&EventFlow::Return("local-cache".into())), Some(HydrateFrom::LocalCache));
    assert_eq!(hydrate_from_flow(&EventFlow::Return("remote-cache".into())), Some(HydrateFrom::RemoteCache));
    assert_eq!(hydrate_from_flow(&EventFlow::Return("elsewhere".into())), None);
    assert_eq!(hydrate_from_flow(&EventFlow::Continue), None);
}

#[test]
fn retries() {
    assert_eq!(attempt_total(2), 3);
    assert_eq!(next_attempt(1, 3, AttemptOutcome::Exited(false)), AttemptStep::Retry(2));
    assert_eq!(next_attempt(3, 3, AttemptOutcome::Exited(false)), AttemptStep::GiveUp);
    assert_eq!(next_attempt(2, 3, AttemptOutcome::Exited(true)), AttemptStep::Succeeded);
    assert_eq!(next_attempt(1, 3, AttemptOutcome::SpawnFailed), AttemptStep::Aborted);
}

#[test]
fn failing_command_runs_once_per_allowed_attempt() {
    let total = attempt_total(2);
    let mut index = 1;
    let mut runs = 0;
    loop {
        runs += 1;
        match next_attempt(index, total, AttemptOutcome::Exited(false)) {
            AttemptStep::Retry(next) => index = next,
            AttemptStep::GiveUp => break,
            _ => panic!("unexpected step"),
        }
    }
    assert_eq!(runs, 3);
}

#[test]
fn streaming_decisions() {
    let mut r = runner("abc");
    assert!(r.should_stream_output(true, false));
    assert!(r.should_stream_output(false, true));
    assert!(!r.should_stream_output(false, false));
    r.task.options.output_style = Some(TaskOutputStyle::Stream);
    assert!(r.should_stream_output(false, false));
    r.task.options.output_style = Some(TaskOutputStyle::Buffer);
    assert!(!r.should_stream_output(true, true));
    assert_eq!(r.stream_prefix(true, false, 1), None);
    assert_eq!(r.stream_prefix(true, false, 2).as_deref(), Some("app:build"));
    assert_eq!(r.stream_prefix(false, false, 1).as_deref(), Some("app:build"));
    assert_eq!(longest_target_width(&strings(&["a:b", "app:build", "x"])), Some(9));
    assert_eq!(longest_target_width(&vec![]), None);
}

#[test]
fn recording_a_run() {
    let mut r = runner("abc");
    let logs = r.record_run(Some(3), 99, "out".into(), "err".into());
    assert_eq!(r.cache.exit_code, 3);
    assert_eq!(r.cache.last_run_time, 99);
    assert_eq!(logs.stdout, "out");
    assert_eq!(logs.stderr, "err");
    r.record_run(None, 100, String::new(), String::new());
    assert_eq!(r.cache.exit_code, 0);
    assert_eq!(r.cache.hash, "abc");
}

#[test]
fn no_op_target_passes_at_once() {
    let mut r = runner("abc");
    r.task.is_no_op = true;
    assert!(r.is_no_op());
    match r.run_target_step(RunTargetPhase::Start, RunTargetEvent::Begin(true), false) {
        (RunTargetPhase::Done, RunTargetAction::Report { hydrate, comments, status }) => {
            assert!(!hydrate);
            assert_eq!(comments, strings(&["no op"]));
            assert_eq!(status, ActionStatus::Passed);
        }
        _ => panic!("expected a report"),
    }
}

#[test]
fn cached_run_reports_where_outputs_come_from() {
    let r = runner("0123456789abcdef");
    let (phase, action) = r.run_target_step(RunTargetPhase::Start, RunTargetEvent::Begin(true), false);
    assert_eq!(phase, RunTargetPhase::CheckingCache);
    assert!(matches!(action, RunTargetAction::CheckCache));
    match r.run_target_step(phase, RunTargetEvent::CacheChecked(Some(HydrateFrom::RemoteCache)), false) {
        (RunTargetPhase::Done, RunTargetAction::Report { hydrate, comments, status }) => {
            assert!(hydrate);
            assert_eq!(comments, strings(&["cached from remote", "01234567"]));
            assert_eq!(status, ActionStatus::CachedFromRemote);
        }
        _ => panic!("expected a report"),
    }
    match r.run_target_step(phase, RunTargetEvent::CacheChecked(Some(HydrateFrom::PreviousOutput)), true) {
        (RunTargetPhase::Done, RunTargetAction::Report { hydrate, comments, status }) => {
            assert!(!hydrate);
            assert_eq!(comments, strings(&["cached from previous run"]));
            assert_eq!(status, ActionStatus::Cached);
        }
        _ => panic!("expected a report"),
    }
    match r.run_target_step(phase, RunTargetEvent::CacheChecked(Some(HydrateFrom::LocalCache)), true) {
        (_, RunTargetAction::Report { comments, status, .. }) => {
            assert_eq!(comments, strings(&["cached"]));
            assert_eq!(status, ActionStatus::Cached);
        }
        _ => panic!("expected a report"),
    }
}

#[test]
fn missed_cache_runs_and_archives() {
    let r = runner("abc");
    let (phase, action) = r.run_target_step(RunTargetPhase::CheckingCache, RunTargetEvent::CacheChecked(None), false);
    assert_eq!(phase, RunTargetPhase::Running(true));
    assert!(matches!(action, RunTargetAction::RunCommand));
    match r.run_target_step(phase, RunTargetEvent::CommandFinished(true), false) {
        (RunTargetPhase::Done, RunTargetAction::Finish { archive, status }) => {
            assert!(archive);
            assert_eq!(status, ActionStatus::Passed);
        }
        _ => panic!("expected a finish"),
    }
    match r.run_target_step(phase, RunTargetEvent::CommandFinished(false), false) {
        (RunTargetPhase::Done, RunTargetAction::Finish { archive, status }) => {
            assert!(!archive);
            assert_eq!(status, ActionStatus::Failed);
        }
        _ => panic!("expected a finish"),
    }
}

#[test]
fn failed_command_ends_with_its_error_and_archives_nothing() {
    let r = runner("abc");
    let (phase, action) = r.run_target_step(RunTargetPhase::Running(true), RunTargetEvent::CommandFailed, false);
    assert_eq!(phase, RunTargetPhase::Done);
    assert!(matches!(action, RunTargetAction::Fail));
}

#[test]
fn attempts_are_recorded_in_order() {
    let total = attempt_total(2);
    let mut attempts = vec![];
    assert_eq!(record_attempt(&mut attempts, 1, total, AttemptOutcome::Exited(false)), AttemptStep::Retry(2));
    assert_eq!(record_attempt(&mut attempts, 2, total, AttemptOutcome::Exited(true)), AttemptStep::Succeeded);
    assert_eq!(attempts.len(), 2);
    assert_eq!((attempts[0].index, attempts[0].finished, attempts[0].status), (1, true, ActionStatus::Failed));
    assert_eq!((attempts[1].index, attempts[1].finished, attempts[1].status), (2, true, ActionStatus::Passed));
    let mut aborted = vec![];
    assert_eq!(record_attempt(&mut aborted, 1, total, AttemptOutcome::SpawnFailed), AttemptStep::Aborted);
    assert_eq!(aborted[0].status, ActionStatus::Failed);
}

#[test]
fn without_version_control_nothing_is_cached() {
    let r = runner("abc");
    let (phase, action) = r.run_target_step(RunTargetPhase::Start, RunTargetEvent::Begin(false), false);
    assert_eq!(phase, RunTargetPhase::Running(false));
    assert!(matches!(action, RunTargetAction::RunCommand));
    match r.run_target_step(phase, RunTargetEvent::CommandFinished(true), false) {
        (RunTargetPhase::Done, RunTargetAction::Finish { archive, status }) => {
            assert!(!archive);
            assert_eq!(status, ActionStatus::Passed);
        }
        _ => panic!("expected a finish"),
    }
    let (phase, action) = r.run_target_step(RunTargetPhase::Done, RunTargetEvent::Begin(true), false);
    assert_eq!(phase, RunTargetPhase::Done);
    assert!(matches!(action, RunTargetAction::Ignore));
}

#[test]
fn first_success_ends_the_retries() {
    let total = attempt_total(3);
    let outcomes = [AttemptOutcome::Exited(false), AttemptOutcome::Exited(true), AttemptOutcome::Exited(false)];
    let mut index = 1;
    let mut runs = 0;
    let mut ended = None;
    for outcome in outcomes {
        runs += 1;
        match next_attempt(index, total, outcome) {
            AttemptStep::Retry(next) => index = next,
            step => {
                ended = Some(step);
                break;
            }
        }
    }
    assert_eq!(runs, 2);
    assert_eq!(ended, Some(AttemptStep::Succeeded));
}
