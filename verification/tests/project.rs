use senv::config::Config;
use senv::project::{cache_root_from, declares_workspace, project_key, state_root_from, Project};

fn usable(key: &str) -> bool {
    !key.is_empty() && key.chars().all(|c| c.is_ascii_alphanumeric() || c == '-' || c == '_')
}

#[test]
fn the_key_separates_projects_that_share_a_directory_name() {
    let a = project_key("/home/u/work/api");
    let b = project_key("/home/u/personal/api");
    assert_ne!(a, b, "same basename, different path — must not share state");
    assert!(a.starts_with("api-"), "the key should stay readable: {a}");
    assert_eq!(a, project_key("/home/u/work/api"), "must be stable");
}

#[test]
fn a_key_is_always_a_usable_directory_name() {
    for weird in ["/", "/a/../b", "/home/u/my project (v2)", "/home/u/.."] {
        let key = project_key(weird);
        assert!(!key.is_empty());
        assert!(usable(&key), "{weird} produced an unusable key: {key}");
    }
}

#[test]
fn senvs_state_is_refused_when_it_would_land_inside_the_project() {
    let err = Project::assemble("/w/proj", "/w/proj", "/w/proj/cache", Config::default())
        .err()
        .expect("state inside the project must be refused");
    let text = format!("{} {}", err.message(), err.fix().unwrap_or_default());
    assert!(text.contains("inside the project"), "{text}");
    assert!(text.contains("SENV_STATE_DIR"), "{text}");
    let r = Project::assemble("/w/proj", "/w/state", "/w/proj/cache", Config::default());
    assert!(r.is_err());
}

#[test]
fn a_state_root_that_merely_contains_the_project_is_allowed() {
    let p = Project::assemble("/w/repo", "/w", "/w/cache", Config::default())
        .expect("a state root above the project keeps its data beside it, not in it");
    assert!(p.state_dir.starts_with("/w/projects/"));
    assert!(!p.state_dir.starts_with("/w/repo"));
}

#[test]
fn a_project_inside_another_projects_state_is_refused() {
    let r = Project::assemble("/w/state/projects/someone-else", "/w/state", "/w/state/cache", Config::default());
    assert!(r.is_err());
}

#[test]
fn a_sibling_that_merely_shares_a_name_prefix_is_not_inside_the_project() {
    let p = Project::assemble("/w/proj", "/w/proj-elsewhere", "/w/proj-elsewhere/cache", Config::default())
        .expect("a sibling root is fine");
    assert!(!p.state_dir.starts_with("/w/proj/"));
}

#[test]
fn the_environment_lives_outside_the_project_tree() {
    let p = Project::assemble("/w/proj", "/s", "/c", Config::default()).unwrap();
    assert_eq!(p.venv(), format!("/s/projects/{}/venv", p.key));
    assert!(!p.venv().starts_with("/w/proj"));
    assert_eq!(p.pyproject_path(), "/w/proj/pyproject.toml");
    assert_eq!(p.lock_path(), "/w/proj/uv.lock");
    assert_eq!(p.stage(), format!("/s/projects/{}/stage", p.key));
}

#[test]
fn senvs_roots_come_from_the_environment_and_must_be_absolute() {
    assert_eq!(state_root_from(Some("/data/senv"), None, Some("/home/u")).unwrap(), "/data/senv");
    let err = state_root_from(Some("rel/state"), None, Some("/home/u")).err().unwrap();
    assert!(err.message().contains("SENV_STATE_DIR must be an absolute path"), "{}", err.message());
    assert_eq!(state_root_from(None, Some("/xdg"), Some("/home/u")).unwrap(), "/xdg/senv");
    assert_eq!(state_root_from(None, Some("xdg"), Some("/home/u")).unwrap(), "/home/u/.local/state/senv");
    assert_eq!(cache_root_from(None, None, Some("/home/u")).unwrap(), "/home/u/.cache/senv");
    assert!(cache_root_from(None, None, None).is_err());
}

#[test]
fn a_workspace_root_is_recognised_by_its_manifest() {
    assert!(declares_workspace("[tool.uv.workspace]\nmembers = ['packages/*']\n"));
    assert!(!declares_workspace("[tool.uv]\ndev-dependencies = []\n"));
    assert!(!declares_workspace("[tool.uv.workspace"));
}

#[test]
fn the_state_and_the_environment_lie_outside_the_project() {
    for (root, state) in [("/w/repo", "/w"), ("/home/u/work/api", "/home/u/.local/state/senv"), ("/w/proj", "/w/proj-elsewhere")] {
        let p = Project::assemble(root, state, "/c/cache", Config::default()).expect("accepted");
        assert!(!std::path::Path::new(&p.state_dir).starts_with(&p.root), "{}", p.state_dir);
        assert!(!std::path::Path::new(&p.venv()).starts_with(&p.root), "{}", p.venv());
    }
}
