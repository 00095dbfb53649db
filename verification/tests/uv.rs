use senv::config::Config;
use senv::project::Project;
use senv::uv::{
    find, is_project_specified, manifest_step, review_lock, review_manifest, rewritten_warning, stage_file_names, staging_for,
    unexpected_manifest_changes, uv_candidates, ManifestStep,
};

#[test]
fn a_static_manifest_can_be_resolved_away_from_the_source() {
    let manifest = r#"
[project]
name = "demo"
version = "0.1.0"
dependencies = ["requests"]
"#;
    assert!(staging_for(manifest).is_possible());
    assert_eq!(staging_for(manifest).reason(), None);
}

#[test]
fn dynamic_metadata_needs_the_real_tree_and_says_so() {
    let manifest = r#"
[project]
name = "demo"
dynamic = ["version"]
"#;
    let s = staging_for(manifest);
    let reason = s.reason().expect("must explain itself");
    assert!(reason.contains("dynamic"), "{reason}");
    assert!(reason.contains("version"), "{reason}");
}

#[test]
fn path_dependencies_and_workspaces_need_the_real_tree() {
    let path_dep = r#"
[project]
name = "demo"
version = "0"
[tool.uv.sources]
mylib = { path = "../mylib" }
"#;
    assert!(staging_for(path_dep).reason().unwrap().contains("mylib"));

    let workspace = r#"
[project]
name = "demo"
version = "0"
[tool.uv.workspace]
members = ["packages/*"]
"#;
    assert!(staging_for(workspace).reason().unwrap().contains("workspace"));

    let registry = r#"
[project]
name = "demo"
version = "0"
[tool.uv.sources]
torch = { index = "pytorch" }
"#;
    assert!(staging_for(registry).is_possible());
}

#[test]
fn a_dependency_edit_is_expected_and_anything_else_is_reported() {
    let before = r#"
[project]
name = "demo"
version = "0.1.0"
dependencies = ["requests"]
"#;
    let with_dep = r#"
[project]
name = "demo"
version = "0.1.0"
dependencies = ["requests", "idna"]
"#;
    assert!(
        unexpected_manifest_changes(before, with_dep).is_empty(),
        "adding a dependency is the whole point of `senv add`"
    );

    let tampered = r#"
[project]
name = "demo"
version = "0.1.0"
dependencies = ["requests"]
[build-system]
requires = ["evil"]
build-backend = "evil"
"#;
    let found = unexpected_manifest_changes(before, tampered);
    assert!(found.iter().any(|f| f.contains("build-system")), "{found:?}");

    let renamed = r#"
[project]
name = "not-demo"
version = "0.1.0"
dependencies = ["requests"]
"#;
    let found = unexpected_manifest_changes(before, renamed);
    assert!(found.iter().any(|f| f.contains("name")), "{found:?}");
}

#[test]
fn an_unparseable_manifest_is_left_to_uv() {
    assert_eq!(
        staging_for("[project").reason(),
        Some("pyproject.toml could not be parsed")
    );
    assert!(staging_for("x = 1\n").reason().unwrap().contains("no [project] table"));
    assert!(staging_for("[tool.uv]\ndev-dependencies = []\n").is_possible());
}

#[test]
fn a_dynamic_reason_lists_every_field_in_order() {
    let s = staging_for("[project]\nname='x'\ndynamic = ['version', 'readme', 3]\n");
    assert_eq!(
        s.reason(),
        Some("[project] dynamic = [version, readme] — the build backend must run against your source to produce that metadata")
    );
    assert!(staging_for("[project]\nname='x'\ndynamic = []\n").is_possible());
}

#[test]
fn a_workspace_source_is_local_and_its_name_is_sanitized() {
    let s = staging_for("[project]\nname='x'\n[tool.uv.sources]\n\"a\\u001b[31mb\" = { workspace = true }\n");
    assert_eq!(s.reason(), Some("[tool.uv.sources] 'ab' is a local path dependency"));
    assert!(staging_for("[project]\nname='x'\n[tool.uv.sources]\nb = { workspace = false }\n").is_possible());
}

#[test]
fn changes_are_reported_by_table_and_uv_sources_are_expected() {
    let before = "[project]\nname='x'\n[tool.uv]\ndev = 1\n[tool.ruff]\nline = 80\n";
    let after = "[project]\nname='x'\noptional-dependencies = { a = ['b'] }\n[tool.uv]\ndev = 1\nsources = { a = { index = 'i' } }\n[tool.ruff]\nline = 100\n[dependency-groups]\ndev = ['x']\n";
    assert_eq!(
        unexpected_manifest_changes(before, after),
        vec!["[tool] (a section other than uv)".to_string()]
    );
    let after = "[project]\nname='x'\n[tool.uv]\ndev = 2\n[tool.ruff]\nline = 80\n";
    assert_eq!(unexpected_manifest_changes(before, after), vec!["[tool.uv]".to_string()]);
    assert!(unexpected_manifest_changes(before, "[not toml").is_empty());
}

#[test]
fn only_a_changed_manifest_is_copied_back_and_only_when_expected() {
    let a = Some("aaa".to_string());
    let b = Some("bbb".to_string());
    assert_eq!(manifest_step(&a, &a, true), ManifestStep::Unchanged);
    assert_eq!(manifest_step(&a, &None, true), ManifestStep::Unchanged);
    assert_eq!(manifest_step(&a, &b, false), ManifestStep::Refuse);
    assert_eq!(manifest_step(&a, &b, true), ManifestStep::CopyBack);
    assert_eq!(manifest_step(&None, &b, true), ManifestStep::CopyBack);
    let w = rewritten_warning("/s/stage/pyproject.toml");
    assert!(w.contains("did NOT copy it back"), "{w}");
    assert!(w.contains("/s/stage/pyproject.toml"), "{w}");
}

#[test]
fn a_staged_manifest_that_does_not_parse_is_never_copied_back() {
    let before = "[project]\nname='x'\n";
    let ok = review_manifest(before, "[project]\nname='x'\n[build-system]\nrequires=['evil']\n", "/s/p")
        .expect("a valid manifest is reviewed");
    assert_eq!(
        ok,
        vec!["pyproject.toml changed outside the dependency lists: [build-system]".to_string()]
    );
    let err = review_manifest(before, "[project", "/s/p").err().expect("refused");
    assert!(err.message().contains("staged manifest is invalid"), "{}", err.message());
    assert!(review_lock("version = 1\n", "/s/l").is_ok());
    let err = review_lock("version = ", "/s/l").err().expect("refused");
    assert!(err.message().contains("staged lockfile is invalid"), "{}", err.message());
}

#[test]
fn staging_copies_manifests_and_not_the_source_tree() {
    let names = stage_file_names();
    assert!(names.contains(&"pyproject.toml".to_string()));
    assert!(names.contains(&"README.md".to_string()), "uv may need the readme for metadata");
    assert!(!names.iter().any(|n| n.contains("src") || n.ends_with(".py")));
}

#[test]
fn uv_is_looked_for_where_the_user_put_it_first() {
    let c = uv_candidates(Some("~/bin/uv"), Some("/opt/uv"), Some("/a:/b/"), Some("/home/u"));
    assert_eq!(
        c,
        vec![
            "/home/u/bin/uv".to_string(),
            "/opt/uv".to_string(),
            "/a/uv".to_string(),
            "/b/uv".to_string(),
            "/home/u/.local/bin/uv".to_string(),
            "/home/u/.cargo/bin/uv".to_string(),
            "/usr/local/bin/uv".to_string(),
            "/opt/homebrew/bin/uv".to_string(),
        ]
    );
    let c = uv_candidates(None, None, None, None);
    assert_eq!(c[0], "~/.local/bin/uv");
    assert_eq!(c.len(), 4);
}

#[test]
fn a_package_cannot_point_senvs_toolchain_at_its_own_binary() {
    let mut cfg = Config::default();
    cfg.env.uv = Some("/w/proj/evil.sh".to_string());
    let p = Project::assemble("/w/proj", "/s", "/c", cfg).unwrap();
    assert!(is_project_specified(&p));
    let err = find(&p, Ok("/w/proj/evil.sh".to_string())).err().expect("refused");
    assert!(err.message().contains("inside your project directory"), "{}", err.message());
    let state = format!("{}/venv/bin/uv", p.state_dir);
    let err = find(&p, Ok(state)).err().expect("refused");
    assert!(err.message().contains("inside your senv state directory"), "{}", err.message());
    assert_eq!(find(&p, Ok("/usr/bin/uv".to_string())).unwrap(), "/usr/bin/uv");

    let found = Project::assemble("/w/proj", "/s", "/c", Config::default()).unwrap();
    assert!(!is_project_specified(&found));
    assert_eq!(find(&found, Ok("/w/proj/uv".to_string())).unwrap(), "/w/proj/uv");
}

#[test]
fn a_stage_compares_against_the_hashes_it_was_copied_in_with() {
    let stage = senv::uv::Stage::new("/s/stage".to_string(), Some("aa".to_string()), None);
    assert_eq!(stage.dir, "/s/stage");
    assert_eq!(stage.manifest_step(&Some("aa".to_string()), true), ManifestStep::Unchanged);
    assert_eq!(stage.manifest_step(&None, true), ManifestStep::Unchanged);
    assert_eq!(stage.manifest_step(&Some("bb".to_string()), true), ManifestStep::CopyBack);
    assert_eq!(stage.manifest_step(&Some("bb".to_string()), false), ManifestStep::Refuse);
    assert!(stage.lock_changed(&Some("cc".to_string())));
    assert!(!stage.lock_changed(&None));
    let stage = senv::uv::Stage::new("/s".to_string(), None, Some("cc".to_string()));
    assert!(!stage.lock_changed(&Some("cc".to_string())));
    assert!(stage.lock_changed(&None));
}

#[test]
fn a_hostile_key_in_a_staged_manifest_is_reported_without_its_escapes() {
    let before = "[project]\nname = \"x\"\n";
    let after = "[project]\nname = \"x\"\n\"evil\\u001b[2Kkey\" = 1\n\n[\"tab\\u001b]0;t\\u0007le\"]\nx = 1\n";
    let found = unexpected_manifest_changes(before, after);
    assert_eq!(found, vec!["[project] evilkey".to_string(), "[table]".to_string()]);
    assert!(found.iter().all(|f| !f.chars().any(|c| c.is_control())));
}

#[test]
fn floats_in_a_staged_manifest_compare_as_numbers() {
    let before = "[project]\nname = \"x\"\n[other]\nx = -0.0\n";
    let after = "[project]\nname = \"x\"\n[other]\nx = 0.0\n";
    assert!(unexpected_manifest_changes(before, after).is_empty());
    let same = "[project]\nname = \"x\"\n[other]\nx = 1.5\n";
    assert!(unexpected_manifest_changes(same, same).is_empty());
    let bumped = "[project]\nname = \"x\"\n[other]\nx = 1.25\n";
    assert_eq!(unexpected_manifest_changes(same, bumped), vec!["[other]".to_string()]);
}

#[test]
fn an_unchanged_nan_still_counts_as_a_change() {
    let text = "[project]\nname = \"x\"\n[other]\nx = nan\n";
    assert_eq!(unexpected_manifest_changes(text, text), vec!["[other]".to_string()]);
    let project = "[project]\nname = \"x\"\nweight = nan\n";
    assert_eq!(unexpected_manifest_changes(project, project), vec!["[project] weight".to_string()]);
}
