use senv::cmd::install::{
    lock_is_stale, needs_interpreter, new_manifest, read_only_project_hint, wanted_python,
};

#[test]
fn a_generated_manifest_is_valid_and_names_the_directory() {
    let manifest = new_manifest("/tmp/my project", Some("3.13"));
    let parsed: toml::Value = toml::from_str(&manifest).expect("valid TOML");
    assert_eq!(parsed["project"]["name"].as_str(), Some("my-project"));
    assert_eq!(parsed["project"]["requires-python"].as_str(), Some(">=3.13"));
    assert!(parsed.get("build-system").is_none());
}

#[test]
fn a_missing_interpreter_is_recognised_so_it_can_be_provisioned() {
    assert!(needs_interpreter(
        "error: No interpreter found for Python 3.13 in managed installations or search path"
    ));
    assert!(!needs_interpreter("Resolved 12 packages in 300ms"));
    assert!(!needs_interpreter("error: Failed to build `demo`"));
}

#[test]
fn uv_staleness_messages_are_recognised() {
    assert!(lock_is_stale(
        "error: The lockfile at `uv.lock` needs to be updated, but `--locked` was provided."
    ));
    assert!(lock_is_stale("error: Unable to find lockfile at `uv.lock`."));
    assert!(!lock_is_stale("Resolved 12 packages in 300ms"));
}

#[test]
fn a_read_only_build_failure_names_the_setting_that_fixes_it() {
    let out = "error: Failed to build `demo`\n  Caused by: [Errno 30] Read-only file \
               system: '/home/u/proj/demo.egg-info'";
    let hint = read_only_project_hint(out).expect("must recognise this");
    assert!(hint.contains("project-writable"), "{hint}");
    assert!(read_only_project_hint("Installed 12 packages").is_none());
}

#[test]
fn a_manifest_without_a_python_request_asks_for_a_supported_floor() {
    let manifest = new_manifest("/srv/app", None);
    let parsed: toml::Value = toml::from_str(&manifest).expect("valid TOML");
    assert_eq!(parsed["project"]["name"].as_str(), Some("app"));
    assert_eq!(parsed["project"]["requires-python"].as_str(), Some(">=3.9"));
}

#[test]
fn a_hostile_python_version_file_is_not_forwarded_to_uv() {
    assert_eq!(
        wanted_python(None, Some("--mirror=https://evil.example\n")),
        None,
        "a flag must never reach uv's argv"
    );
    assert_eq!(wanted_python(None, Some("3.13\n")), Some("3.13".to_string()));
}

#[test]
fn a_dropped_python_version_is_warned_about_and_nothing_else_is() {
    let w = senv::cmd::install::python_version_warning(None, Some("--mirror=https://evil\n"));
    assert_eq!(w.len(), 1);
    assert!(w[0].to_stderr);
    assert!(w[0].text.starts_with("warning: ignoring .python-version — '--mirror=https://evil' is not a version number."));
    assert!(senv::cmd::install::python_version_warning(None, Some("3.13\n")).is_empty());
    assert!(senv::cmd::install::python_version_warning(None, Some("\n")).is_empty());
    assert!(senv::cmd::install::python_version_warning(None, None).is_empty());
    assert!(senv::cmd::install::python_version_warning(Some("3.12"), Some("--evil\n")).is_empty());
}
