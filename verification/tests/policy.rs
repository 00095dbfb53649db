use senv::config::{
    CacheScope, Config, EngineParse, IsolationClaim, NetSpec, NetWord, ResourceParse,
    ResourceSection, SecretSection,
};
use senv::policy::{
    compile, dedup_grants, has_allowlist, install_profile, is_unrestricted, provision_profile,
    run_profile, select_tier, HostTiers, NetMode, NoteLevel, Phase, PhaseParts, PlanOptions,
    UNBOUNDED_WALL_SECS,
};
use senv::project::Project;

const HOME: Option<&str> = Some("/home/u");

fn secs(s: &str) -> Result<u64, String> {
    let (num, unit) = s.split_at(s.len() - 1);
    let n: u64 = num.parse().map_err(|_| format!("bad duration {s}"))?;
    match unit {
        "s" => Ok(n),
        "m" => Ok(n * 60),
        "h" => Ok(n * 3600),
        _ => Err(format!("bad duration {s}")),
    }
}

fn reading(r: &ResourceSection) -> ResourceParse {
    ResourceParse {
        mem: r.mem.as_ref().map(|_| Ok(1 << 30)),
        wall: r.wall.as_deref().filter(|w| w.trim() != "none").map(secs),
        fsize: r.fsize.as_ref().map(|_| Ok(1 << 30)),
        cpu: r.cpu.as_deref().map(secs),
    }
}

fn engine(cfg: &Config) -> EngineParse {
    EngineParse {
        isolation: cfg
            .env
            .isolation
            .as_deref()
            .filter(|i| !i.trim().eq_ignore_ascii_case("auto"))
            .map(|i| match i {
                "process" => Ok(IsolationClaim::Process),
                "supervised" => Ok(IsolationClaim::Supervised),
                other => Err(format!("unknown tier {other}")),
            }),
        run: reading(&cfg.run.resources),
        install: reading(&cfg.install.resources),
    }
}

fn with(f: impl FnOnce(&mut Config)) -> Config {
    let mut c = Config::default();
    f(&mut c);
    c
}

fn project(cfg: Config) -> Project {
    Project::assemble("/w/proj", "/s", "/c", cfg).expect("project")
}

fn host() -> HostTiers {
    HostTiers { supervised: true, container: false, supervisor_missing: Vec::new(), macos: false }
}

fn opts() -> PlanOptions {
    let mut o = PlanOptions::new();
    o.uv = Some("/usr/bin/true".to_string());
    o
}

fn parts_for(p: &Project, phase: Phase) -> PhaseParts {
    let e = engine(&p.config);
    let mut parts = match phase {
        Phase::Provision => provision_profile(p, &opts(), false),
        Phase::Install => install_profile(p, &opts(), HOME, &e, false).unwrap(),
        _ => run_profile(p, phase, &opts(), HOME, &e, false).unwrap(),
    };
    dedup_grants(&mut parts.profile);
    parts
}

fn env_get(env: &[(String, String)], k: &str) -> Option<String> {
    env.iter().find(|(n, _)| n == k).map(|(_, v)| v.clone())
}

#[test]
fn the_run_phase_denies_the_network_by_default() {
    let p = parts_for(&project(Config::default()), Phase::Run).profile;
    assert_eq!(p.net_mode, NetMode::Deny);
    assert!(p.net_egress.is_empty());
}

#[test]
fn the_environment_is_readable_and_never_writable_at_run_time() {
    let project = project(Config::default());
    let venv = project.venv();
    let p = parts_for(&project, Phase::Run).profile;
    assert!(p.fs_read.contains(&venv), "the venv must be readable: {:?}", p.fs_read);
    assert!(!p.fs_write.iter().any(|w| w == &venv), "never writable at run time: {:?}", p.fs_write);
    assert!(!venv.starts_with(&project.root), "the venv must live outside the project tree");
}

#[test]
fn the_install_phase_can_write_the_environment_but_not_the_project() {
    let project = project(Config::default());
    let e = engine(&project.config);
    let plan = compile(&project, Phase::Install, &opts(), HOME, &e, &host()).expect("plan");
    assert_eq!(plan.work, project.root, "the project is the working directory");
    assert!(plan.work_readonly, "the working directory IS the project, so it is read-only");
    let venv = project.venv();
    assert!(plan.profile.fs_write.iter().any(|w| w == &venv));
    assert!(
        plan.profile.fs_read.iter().any(|r| r == &project.root),
        "and readable, or uv could not see the manifest"
    );
}

#[test]
fn asking_for_a_writable_project_turns_the_read_only_grant_off() {
    let project = project(with(|c| c.install.project_writable = true));
    let e = engine(&project.config);
    let plan = compile(&project, Phase::Install, &opts(), HOME, &e, &host()).expect("plan");
    assert!(!plan.work_readonly, "the user asked for write access");
}

#[test]
fn a_staged_install_keeps_its_staging_directory_writable() {
    let project = project(Config::default());
    let e = engine(&project.config);
    let mut o = opts();
    o.work_override = Some(project.stage());
    let plan = compile(&project, Phase::Install, &o, HOME, &e, &host()).expect("plan");
    assert!(!plan.work_readonly, "uv writes the staged manifests");
    assert_eq!(plan.work, project.stage());
}

#[test]
fn the_run_phase_keeps_the_project_writable() {
    let project = project(Config::default());
    let e = engine(&project.config);
    let plan = compile(&project, Phase::Run, &PlanOptions::new(), HOME, &e, &host()).expect("plan");
    assert!(!plan.work_readonly, "your code edits your files");
}

#[test]
fn an_allowlist_never_leaves_an_unrestricted_route_beside_it() {
    let project = project(with(|c| c.run.net = NetSpec::Hosts(vec!["api.example.com".to_string()])));
    for phase in [Phase::Provision, Phase::Install, Phase::Run] {
        let p = parts_for(&project, phase).profile;
        assert!(!p.net_egress.is_empty(), "{phase:?} should have a list");
        assert_eq!(p.net_mode, NetMode::Deny, "{phase:?}: {:?}", p.net_egress);
        assert!(has_allowlist(&p), "{phase:?}");
        assert!(!is_unrestricted(&p), "{phase:?}");
    }
}

#[test]
fn asking_for_an_unrestricted_network_is_still_distinguishable_from_a_deny() {
    let p = parts_for(&project(Config::default()), Phase::Run).profile;
    assert!(!has_allowlist(&p) && !is_unrestricted(&p), "denied");

    let p = parts_for(&project(with(|c| c.run.net = NetSpec::Mode(NetWord::Host))), Phase::Run).profile;
    assert!(is_unrestricted(&p), "host means unrestricted");
    assert!(!has_allowlist(&p));

    let p = parts_for(
        &project(with(|c| c.run.net = NetSpec::Hosts(vec!["api.example.com".to_string()]))),
        Phase::Run,
    )
    .profile;
    assert!(has_allowlist(&p) && !is_unrestricted(&p), "allowlist");
}

#[test]
fn provisioning_writes_its_cache_somewhere_it_is_allowed_to() {
    let project = project(Config::default());
    let parts = provision_profile(&project, &opts(), false);
    let cache = env_get(&parts.env, "UV_CACHE_DIR").expect("provisioning must redirect uv's cache");
    assert!(
        cache.starts_with(&parts.work) || parts.profile.fs_write.iter().any(|w| cache.starts_with(w.as_str())),
        "the cache at {cache} is outside every write grant: {:?}",
        parts.profile.fs_write
    );
}

#[test]
fn the_install_phase_reaches_package_registries_and_nothing_else() {
    let p = parts_for(&project(Config::default()), Phase::Install).profile;
    assert!(p.net_egress.contains(&"pypi.org".to_string()));
    assert!(p.net_egress.contains(&"files.pythonhosted.org".to_string()));
    assert_eq!(p.net_egress.len(), 2, "no other host: {:?}", p.net_egress);

    let with_index = project(with(|c| c.install.extra_indexes = vec!["download.pytorch.org".to_string()]));
    let p = parts_for(&with_index, Phase::Install).profile;
    assert!(p.net_egress.contains(&"download.pytorch.org".to_string()));
}

fn token(phases: &[&str]) -> Config {
    with(|c| {
        c.secrets = vec![(
            "TOKEN".to_string(),
            SecretSection {
                source: Some("env:TOKEN".to_string()),
                inject: None,
                ttl: None,
                phases: phases.iter().map(|s| s.to_string()).collect(),
            },
        )]
    })
}

#[test]
fn no_secret_can_reach_the_install_phase() {
    let project = project(token(&[]));
    let install = parts_for(&project, Phase::Install).profile;
    assert!(install.secret_grants.is_empty());
    let run = parts_for(&project, Phase::Run).profile;
    assert_eq!(run.secret_grants.len(), 1, "but the run phase gets it");
    assert_eq!(run.secret_grants[0].name, "TOKEN");
}

#[test]
fn a_secret_can_be_scoped_to_the_interactive_shell_only() {
    let project = project(token(&["shell"]));
    assert!(parts_for(&project, Phase::Run).profile.secret_grants.is_empty());
    assert_eq!(parts_for(&project, Phase::Shell).profile.secret_grants.len(), 1);
}

#[test]
fn an_allowlist_is_refused_at_a_tier_that_cannot_enforce_it() {
    let cfg = with(|c| {
        c.env.isolation = Some("process".to_string());
        c.run.net = NetSpec::Hosts(vec!["api.example.com".to_string()]);
    });
    let err = select_tier(&cfg, &engine(&cfg), Phase::Run, true, &host(), &mut Vec::new())
        .err()
        .expect("must refuse");
    assert!(err.message().contains("all-or-nothing"), "{}", err.message());
    assert!(err.fix().unwrap().contains("supervised"), "{err:?}");
}

#[test]
fn denying_the_network_never_needs_an_exotic_tier() {
    let cfg = Config::default();
    let tiers = HostTiers { supervised: false, container: false, supervisor_missing: vec!["slirp4netns".to_string()], macos: false };
    let tier = select_tier(&cfg, &engine(&cfg), Phase::Run, false, &tiers, &mut Vec::new()).unwrap();
    assert_eq!(tier, IsolationClaim::Process);
}

#[test]
fn wall_none_is_finite() {
    let project = project(with(|c| c.run.resources.wall = Some("none".to_string())));
    let p = parts_for(&project, Phase::Run).profile;
    assert_eq!(p.wall_secs, UNBOUNDED_WALL_SECS);
    assert!(p.wall_secs > 0, "there is always a kill switch");
}

#[test]
fn opening_the_network_or_the_project_is_always_announced() {
    let parts = parts_for(&project(with(|c| c.run.net = NetSpec::Mode(NetWord::Host))), Phase::Run);
    assert!(parts.notes.iter().any(|n| n.level == NoteLevel::Warn), "{:?}", parts.notes);

    let parts = parts_for(&project(with(|c| c.install.project_writable = true)), Phase::Install);
    assert!(
        parts.notes.iter().any(|n| n.level == NoteLevel::Warn && n.text.contains("build")),
        "{:?}",
        parts.notes
    );
}

#[test]
fn the_run_environment_is_built_not_inherited() {
    let project = project(Config::default());
    let env = parts_for(&project, Phase::Run).env;
    assert_eq!(env_get(&env, "VIRTUAL_ENV"), Some(project.venv()));
    assert!(env_get(&env, "PATH").unwrap().starts_with(&format!("{}/bin", project.venv())));
    assert_eq!(env_get(&env, "TMPDIR"), Some(project.tmp("run")));
    assert!(env_get(&env, "PYTHONPYCACHEPREFIX").is_none());
}

#[test]
fn the_cache_is_per_project_unless_the_user_opts_into_sharing() {
    let p = project(Config::default());
    assert_eq!(p.config.install.cache, CacheScope::Project);
    assert!(p.cache().starts_with(&p.state_dir));

    let shared = project(with(|c| c.install.cache = CacheScope::Shared));
    assert!(!shared.cache().starts_with(&shared.state_dir));
}

#[test]
fn provisioning_touches_nothing_but_the_interpreter_directory() {
    let project = project(Config::default());
    let p = parts_for(&project, Phase::Provision).profile;
    let py = project.python_dir();
    assert!(p.fs_write.iter().any(|w| w == &py));
    assert!(!p.fs_write.iter().any(|w| w == &project.root), "{:?}", p.fs_write);
    assert!(p.net_egress.iter().any(|h| h == "github.com"));
    assert!(!p.net_egress.iter().any(|h| h == "pypi.org"), "no package access here");
}

#[test]
fn grants_do_not_repeat_themselves_in_the_digested_policy() {
    let project = project(with(|c| c.run.fs.read = vec!["/usr".to_string(), "/usr".to_string()]));
    let p = parts_for(&project, Phase::Run).profile;
    let usr = p.fs_read.iter().filter(|r| *r == "/usr").count();
    assert_eq!(usr, 1, "{:?}", p.fs_read);
}

#[test]
fn the_deny_list_adds_the_credential_paths_sorted_and_once() {
    let base = vec!["~/.ssh".to_string(), "~/.netrc".to_string(), "~/.aws".to_string()];
    let merged = senv::policy::merged_deny(&base);
    for p in ["~/.ssh", "~/.netrc", "~/.pypirc", "~/.git-credentials", "~/.aws"] {
        assert!(merged.iter().any(|m| m == p), "{p} missing");
    }
    assert!(merged.windows(2).all(|w| w[0] < w[1]));
    assert_eq!(merged.len(), 9);
}
