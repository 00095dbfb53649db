use senv::cmd::install::{
    changed_in_place, in_place_messages, staging_choice, venv_python, SyncAction, SyncEvent,
    SyncMachine, SyncStage,
};

fn ran(ok: bool, output: &str) -> SyncEvent {
    SyncEvent::Ran { ok, output: output.to_string() }
}

#[test]
fn a_clean_sync_runs_the_dependencies_then_the_project() {
    let (mut m, a) = SyncMachine::start(false, Vec::new());
    assert_eq!(a, SyncAction::RunDeps);
    assert_eq!(m.step(ran(true, "Installed 3 packages")), SyncAction::RunProject);
    assert_eq!(m.step(ran(true, "Installed demo")), SyncAction::Finish);
    assert!(m.ok && !m.writable && m.warnings.is_empty());
}

#[test]
fn a_dependency_failing_on_the_read_only_project_is_never_retried_writable() {
    let (mut m, _) = SyncMachine::start(false, Vec::new());
    let a = m.step(ran(false, "error: [Errno 30] Read-only file system: '/proj/x.egg-info'"));
    assert_eq!(a, SyncAction::Finish, "the failing backend belongs to a dependency");
    assert!(!m.deps_ok && !m.writable);
}

#[test]
fn the_projects_own_backend_gets_one_writable_retry() {
    let (mut m, _) = SyncMachine::start(false, Vec::new());
    m.step(ran(true, ""));
    let a = m.step(ran(false, "error: [Errno 30] Read-only file system: '/proj/demo.egg-info'"));
    assert_eq!(a, SyncAction::RunWritable);
    assert_eq!(m.step(ran(true, "Built demo")), SyncAction::Finish);
    assert!(m.writable);
    assert!(m.warnings[0].contains("own build backend ran with write access"));

    let (mut m, _) = SyncMachine::start(false, Vec::new());
    m.step(ran(true, ""));
    m.step(ran(false, "Permission denied: '/proj/x'"));
    assert_eq!(m.step(ran(false, "still failing")), SyncAction::Finish);
    assert!(!m.writable);
    assert!(m.warnings[0].contains("project-writable"));
}

#[test]
fn a_missing_interpreter_is_provisioned_once_and_the_sync_retried() {
    let (mut m, _) = SyncMachine::start(false, Vec::new());
    let a = m.step(ran(false, "error: No interpreter found for Python 3.13 in managed installations"));
    assert_eq!(a, SyncAction::Provision);
    assert_eq!(m.step(SyncEvent::Provisioned(Ok(0))), SyncAction::RunDeps);
    let a = m.step(ran(false, "error: No interpreter found for Python 3.13 in managed installations"));
    assert_eq!(a, SyncAction::Finish, "provisioning is tried once");

    let (mut m, _) = SyncMachine::start(false, Vec::new());
    m.step(ran(false, "No interpreter found"));
    m.step(SyncEvent::Provisioned(Err("engine refused".to_string())));
    assert_eq!(m.stage, SyncStage::Done);
    assert_eq!(m.warnings, vec!["could not install a Python interpreter: engine refused".to_string()]);
}

#[test]
fn a_stale_lockfile_is_relocked_unless_frozen() {
    let stale = "error: The lockfile at `uv.lock` needs to be updated, but `--locked` was provided.";
    let (mut m, _) = SyncMachine::start(false, vec!["earlier".to_string()]);
    assert_eq!(m.step(ran(false, stale)), SyncAction::Relock);
    let a = m.step(SyncEvent::Relocked { exit_code: 0, warnings: vec!["from the lock".to_string()] });
    assert_eq!(a, SyncAction::RunDeps);
    assert_eq!(m.warnings, vec!["earlier".to_string(), "from the lock".to_string()]);
    assert_eq!(m.step(ran(false, stale)), SyncAction::Finish, "re-locking is tried once");

    let (mut m, _) = SyncMachine::start(true, Vec::new());
    assert_eq!(m.step(ran(false, stale)), SyncAction::Finish);
}

#[test]
fn in_place_resolution_is_announced_and_measured() {
    assert_eq!(staging_choice(true, "[project]\nname='x'\n").reason(), Some("--in-place was requested"));
    assert!(staging_choice(false, "[project]\nname='x'\n").is_possible());
    let (note, warning) = in_place_messages("--in-place was requested");
    assert!(note.contains("write access to your source"), "{note}");
    assert_eq!(warning, "resolved in-place (--in-place was requested)");
    let a = Some("a".to_string());
    let b = Some("b".to_string());
    assert_eq!(changed_in_place(true, &a, &a, &a, &b), vec!["uv.lock".to_string()]);
    assert_eq!(changed_in_place(true, &a, &b, &None, &a), vec!["pyproject.toml".to_string(), "uv.lock".to_string()]);
    assert!(changed_in_place(false, &a, &b, &a, &b).is_empty());
}

#[test]
fn the_interpreter_version_is_read_from_pyvenv_cfg() {
    let cfg = "home = /usr/bin\nimplementation = CPython\nversion_info = 3.13.1\nversion = 3.13\n";
    assert_eq!(venv_python(cfg), Some("3.13.1".to_string()));
    assert_eq!(venv_python("version = 3.12.4\r\n"), Some("3.12.4".to_string()));
    assert_eq!(venv_python("home = /usr/bin\n"), None);
}
