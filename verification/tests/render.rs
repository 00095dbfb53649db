use senv::cmd::inspect::{
    AllowOutput, DoctorOutput, EnvironmentStatus, GcEntry, GcOutput, PhaseStatus, PhaseVerdict,
    RecentEntry, ReportOutput, StatusOutput, TierStatus, TrustOutput, configured_uv_report,
    doctor_exit_code, render_allow, render_doctor, render_gc, render_report, render_status,
    render_trust, tier_status,
};
use senv::cmd::install::{InitOutput, InstallOutput, render_init, render_install};
use senv::cmd::{discovery_notes, untrusted_warning};
use senv::lines::Line;
use senv::trust::Verdict;

fn out(t: &str) -> Line {
    Line { to_stderr: false, text: t.to_string() }
}

fn err(t: &str) -> Line {
    Line { to_stderr: true, text: t.to_string() }
}

fn s(v: &[&str]) -> Vec<String> {
    v.iter().map(|x| x.to_string()).collect()
}

fn environment(exists: bool) -> EnvironmentStatus {
    EnvironmentStatus {
        path: "/p/.venv".to_string(),
        exists,
        provenance: "sandboxed".to_string(),
        python: Some("3.13.1".to_string()),
        lock: "current".to_string(),
        last_sync: None,
        venv_link: "symlink".to_string(),
        size: "12.0 MB".to_string(),
    }
}

fn run_phase() -> PhaseStatus {
    PhaseStatus {
        phase: "run".to_string(),
        tier: Some("supervised".to_string()),
        network: "none".to_string(),
        writable: s(&["/p", "/tmp"]),
        readable: s(&["/p/.venv"]),
        resources: vec![
            ("mem".to_string(), "2.0 GB".to_string()),
            ("wall".to_string(), "1h".to_string()),
        ],
        policy_digest: Some("0123456789abcdef0123".to_string()),
        secrets: Vec::new(),
        notes: Vec::new(),
        unavailable: None,
    }
}

#[test]
fn status_lists_the_environment_and_each_phase_then_warns_on_stderr() {
    let o = StatusOutput {
        project: "/p".to_string(),
        key: "p-1234".to_string(),
        config: None,
        state: "/s/p-1234".to_string(),
        environment: environment(true),
        phases: vec![run_phase()],
        warnings: s(&["careful"]),
    };
    let lines = render_status(&o);
    assert_eq!(
        lines,
        vec![
            out("project      /p"),
            out("config       (none — defaults; write senv.toml to change)"),
            out("state        /s/p-1234"),
            out(""),
            out("environment  /p/.venv"),
            out("  status     installed"),
            out("  provenance sandboxed"),
            out("  python     3.13.1"),
            out("  lockfile   current"),
            out("  .venv      symlink"),
            out("  size       12.0 MB"),
            out(""),
            out("run phase  (supervised tier)"),
            out("  network    none"),
            out("  writable   /p"),
            out("             /tmp"),
            out("  readable   /p/.venv"),
            out("  limits     mem 2.0 GB, wall 1h"),
            out("  digest     0123456789abcdef"),
            err("\nwarning: careful"),
        ]
    );
}

#[test]
fn a_phase_this_host_cannot_run_says_why_and_nothing_else() {
    let mut phase = run_phase();
    phase.tier = None;
    phase.unavailable = Some("no tier can enforce this".to_string());
    let o = StatusOutput {
        project: "/p".to_string(),
        key: "k".to_string(),
        config: Some("/p/senv.toml".to_string()),
        state: "/s".to_string(),
        environment: environment(false),
        phases: vec![phase],
        warnings: Vec::new(),
    };
    let lines = render_status(&o);
    assert_eq!(lines[1], out("config       /p/senv.toml"));
    assert_eq!(lines[5], out("  status     not created yet"));
    assert!(!lines.iter().any(|l| l.text.starts_with("  size")));
    assert_eq!(
        &lines[lines.len() - 2..],
        &[out("run phase  UNAVAILABLE"), out("  no tier can enforce this")]
    );
}

#[test]
fn report_lines_pad_the_phase_and_name_how_each_command_ended() {
    let o = ReportOutput {
        receipt: "/s/receipts.jsonl".to_string(),
        total_commands: 3,
        recent: vec![
            RecentEntry {
                ts: "2025-01-01T00:00:00Z".to_string(),
                phase: "run".to_string(),
                tier: "supervised".to_string(),
                command: "pytest -q".to_string(),
                exit_code: Some(0),
                denials: 0,
            },
            RecentEntry {
                ts: "2025-01-01T00:00:01Z".to_string(),
                phase: "install".to_string(),
                tier: "supervised".to_string(),
                command: "uv sync".to_string(),
                exit_code: Some(2),
                denials: 3,
            },
            RecentEntry {
                ts: "2025-01-01T00:00:02Z".to_string(),
                phase: "shell".to_string(),
                tier: "container".to_string(),
                command: "bash".to_string(),
                exit_code: None,
                denials: 0,
            },
            RecentEntry {
                ts: "t".to_string(),
                phase: "run".to_string(),
                tier: "x".to_string(),
                command: "c".to_string(),
                exit_code: Some(-1),
                denials: 0,
            },
        ],
        blocked_hosts: s(&["a.example", "b.example"]),
        blocked_paths: Vec::new(),
        blocked_by_design: s(&["/etc/shadow"]),
        blocked_unnamed: 2,
        suggestion: None,
    };
    assert_eq!(
        render_report(&o),
        vec![
            out("receipt  /s/receipts.jsonl"),
            out("commands 3"),
            out(""),
            out("2025-01-01T00:00:00Z  ok    run       pytest -q"),
            out("2025-01-01T00:00:01Z  exit2   install   uv sync  3 blocked"),
            out("2025-01-01T00:00:02Z  kill  shell     bash"),
            out("t  exit-1  run       c"),
            out("\nblocked hosts:  a.example, b.example"),
            out("blocked by design (not suggestable):  /etc/shadow"),
            out("blocked connections whose host the error did not name:  2"),
            out("\nrun `senv report --suggest` for a policy stanza covering these"),
        ]
    );
}

#[test]
fn a_report_with_a_suggestion_ends_with_it() {
    let o = ReportOutput {
        receipt: "r".to_string(),
        total_commands: 0,
        recent: Vec::new(),
        blocked_hosts: Vec::new(),
        blocked_paths: s(&["/data"]),
        blocked_by_design: Vec::new(),
        blocked_unnamed: 0,
        suggestion: Some("[run.fs]".to_string()),
    };
    assert_eq!(
        render_report(&o),
        vec![
            out("receipt  r"),
            out("commands 0"),
            out("blocked paths:  /data"),
            out("\n[run.fs]"),
        ]
    );
}

#[test]
fn allow_warns_first_and_reports_only_what_changed() {
    let o = AllowOutput {
        config: "/p/senv.toml".to_string(),
        added: s(&["api.example.com"]),
        already_present: s(&["pypi.org"]),
        net: s(&["pypi.org", "api.example.com"]),
        warnings: Vec::new(),
    };
    assert_eq!(
        render_allow(&o),
        vec![
            out("allowed api.example.com in /p/senv.toml"),
            out("the run phase may now reach: pypi.org, api.example.com"),
        ]
    );
    let o = AllowOutput {
        config: "c".to_string(),
        added: Vec::new(),
        already_present: s(&["pypi.org"]),
        net: Vec::new(),
        warnings: Vec::new(),
    };
    assert_eq!(render_allow(&o), vec![out("already allowed: pypi.org")]);
    let o = AllowOutput {
        config: "c".to_string(),
        added: Vec::new(),
        already_present: s(&["pypi.org"]),
        net: Vec::new(),
        warnings: s(&["net is host"]),
    };
    assert_eq!(render_allow(&o), vec![err("warning: net is host")]);
}

#[test]
fn trust_lists_each_accepted_widening_or_says_there_was_none() {
    let o = TrustOutput { config: "senv.toml".to_string(), accepted: Vec::new() };
    assert_eq!(
        render_trust(&o),
        vec![out("nothing to accept — senv.toml already matches what senv recorded")]
    );
    let o = TrustOutput { config: "senv.toml".to_string(), accepted: s(&["a", "b"]) };
    assert_eq!(
        render_trust(&o),
        vec![out("accepted 2 widening(s) in senv.toml:"), out("  + a"), out("  + b")]
    );
}

#[test]
fn doctor_pads_tier_and_phase_names() {
    let o = DoctorOutput {
        os: "linux".to_string(),
        mechanism: "landlock".to_string(),
        strongest_tier: "supervised".to_string(),
        syscall_filter: true,
        memory_limit: true,
        process_limit: false,
        egress_allowlist: true,
        tiers: vec![
            TierStatus { tier: "supervised".to_string(), available: true, note: None },
            TierStatus {
                tier: "container".to_string(),
                available: false,
                note: Some("no runtime".to_string()),
            },
        ],
        supervised_missing: Vec::new(),
        uv: None,
        verdicts: vec![PhaseVerdict {
            phase: "install".to_string(),
            ok: true,
            detail: "supervised tier, network registries".to_string(),
        }],
    };
    assert_eq!(
        render_doctor(&o, false),
        vec![
            out("host         linux (landlock)"),
            out("uv           NOT FOUND"),
            out(""),
            out("enforcement"),
            out("  syscall filter    yes"),
            out("  memory limits     yes"),
            out("  process limits    no "),
            out("  egress allowlist  yes"),
            out(""),
            out("isolation tiers"),
            out("  supervised           yes"),
            out("  container            no   (no runtime)"),
            out("\nthis project"),
            out("  install   yes supervised tier, network registries"),
        ]
    );
}

#[test]
fn doctor_explains_a_missing_supervised_tier() {
    let o = DoctorOutput {
        os: "linux".to_string(),
        mechanism: "m".to_string(),
        strongest_tier: "container".to_string(),
        syscall_filter: false,
        memory_limit: false,
        process_limit: false,
        egress_allowlist: false,
        tiers: Vec::new(),
        supervised_missing: s(&["slirp4netns"]),
        uv: Some("uv 0.5.0".to_string()),
        verdicts: Vec::new(),
    };
    let lines = render_doctor(&o, false);
    assert_eq!(lines[1], out("uv           uv 0.5.0"));
    assert_eq!(lines[10], out("\nthe supervised tier is unavailable because:"));
    assert_eq!(lines[11], out("  - slirp4netns"));
    assert!(lines[12].text.starts_with("  Installs need it to restrict egress to package registries."));
    assert!(lines[12].text.contains("sudo apt install slirp4netns nftables"));
    assert!(lines[12].text.split('\n').all(|l| l.chars().count() <= 74 + 2));
    assert_eq!(lines.len(), 13);
}

#[test]
fn gc_says_what_it_would_remove_and_how() {
    let entry = GcEntry {
        key: "old-1".to_string(),
        path: "/s/old-1".to_string(),
        project: "/gone".to_string(),
        size: "1.0 MB".to_string(),
        reason: "the project directory no longer exists".to_string(),
    };
    let o = GcOutput {
        scanned: 1,
        removable: vec![entry.clone()],
        removed: Vec::new(),
        freed: "0 B".to_string(),
        pruned: false,
    };
    assert_eq!(
        render_gc(&o),
        vec![
            out("scanned 1 project state directory"),
            out("  1.0 MB  /s/old-1  — the project directory no longer exists"),
            out("\nnothing was deleted. Re-run with --prune to remove them."),
        ]
    );
    let o = GcOutput {
        scanned: 3,
        removable: vec![entry],
        removed: s(&["/s/old-1"]),
        freed: "1.0 MB".to_string(),
        pruned: true,
    };
    let lines = render_gc(&o);
    assert_eq!(lines[0], out("scanned 3 project state directories"));
    assert_eq!(lines[2], out("removed 1 item(s), freed 1.0 MB"));
    let o = GcOutput {
        scanned: 0,
        removable: Vec::new(),
        removed: Vec::new(),
        freed: "0 B".to_string(),
        pruned: false,
    };
    assert_eq!(
        render_gc(&o),
        vec![out("scanned 0 project state directories"), out("nothing to remove")]
    );
}

fn install(exit_code: i32) -> InstallOutput {
    InstallOutput {
        command: s(&["sync", "--frozen"]),
        tier: "supervised".to_string(),
        policy_digest: "d".to_string(),
        exit_code,
        wall_ms: 1234,
        staged: false,
        changed: s(&["uv.lock"]),
        warnings: s(&["w"]),
        notes: Vec::new(),
        blocked: Vec::new(),
    }
}

#[test]
fn an_install_reports_on_stderr_only() {
    assert_eq!(
        render_install(&install(0), "1.2"),
        vec![
            err("warning: w"),
            err("updated uv.lock"),
            err("ok  uv sync  (supervised tier, 1.2s)"),
        ]
    );
    assert_eq!(
        render_install(&install(1), "1.2"),
        vec![err("warning: w"), err("updated uv.lock")]
    );
}

#[test]
fn init_says_what_it_did_and_how_the_sync_went() {
    let o = InitOutput {
        project: "/p".to_string(),
        state: "/s".to_string(),
        venv: "/p/.venv".to_string(),
        manifest: "created",
        python: Some("3.13".to_string()),
        venv_link: "symlink".to_string(),
        warnings: Vec::new(),
        sync: None,
    };
    assert_eq!(
        render_init(&o),
        vec![
            out("created pyproject.toml"),
            out("  project      /p"),
            out("  environment  /p/.venv"),
            out("  state        /s"),
            out("  python       3.13 (written to .python-version)"),
            out("\nrun `senv sync` to build the environment"),
        ]
    );
    let o = InitOutput {
        project: "/p".to_string(),
        state: "/s".to_string(),
        venv: "/p/.venv".to_string(),
        manifest: "adopted",
        python: None,
        venv_link: "symlink".to_string(),
        warnings: s(&["adopted .venv"]),
        sync: Some(install(3)),
    };
    assert_eq!(
        render_init(&o),
        vec![
            out("adopted pyproject.toml"),
            out("  project      /p"),
            out("  environment  /p/.venv"),
            out("  state        /s"),
            err("warning: adopted .venv"),
            err("\nthe environment was not built: uv exited 3"),
        ]
    );
    let mut o = o;
    o.sync = Some(install(0));
    assert_eq!(render_init(&o).last(), Some(&out("\nenvironment ready")));
}

#[test]
fn discovery_notes_the_workspace_and_an_enclosing_project() {
    assert_eq!(
        discovery_notes(false, "/ws", true, false, true, true, Some("/outer")),
        vec![
            err("note: using /ws — this directory belongs to that uv workspace."),
            err(
                "note: this project sits inside /outer, which senv also tracks. Each has its \
                 own policy and environment — check you are in the one you meant."
            ),
        ]
    );
    assert_eq!(
        discovery_notes(false, "/ws", false, false, true, true, None),
        vec![err(
            "note: using the workspace at /ws — its lockfile and environment cover every member."
        )]
    );
    assert!(discovery_notes(false, "/ws", false, false, true, false, None).is_empty());
    assert!(discovery_notes(false, "/ws", false, true, true, true, None).is_empty());
    assert!(discovery_notes(true, "/ws", true, false, true, true, Some("/o")).is_empty());
}

#[test]
fn an_untrusted_policy_is_warned_about_widening_by_widening() {
    let v = Verdict::Widened(s(&["[run] net: none → host"]));
    assert_eq!(
        untrusted_warning("/p/senv.toml", &v),
        vec![
            err("warning: /p/senv.toml grants more than senv recorded:"),
            err("  + [run] net: none → host"),
            err("  Commands that execute anything are refused until you run `senv trust`."),
            err(""),
        ]
    );
    assert!(untrusted_warning("/p/senv.toml", &Verdict::Trusted).is_empty());
    assert!(untrusted_warning("/p/senv.toml", &Verdict::FirstSight).is_empty());
}

#[test]
fn plan_notes_are_marked_by_level_and_go_to_stderr() {
    let notes = vec![
        senv::policy::Note::warn("the network is open".to_string()),
        senv::policy::Note::info("using the container tier".to_string()),
    ];
    assert_eq!(
        senv::exec::note_lines(&notes),
        vec![err("warning: the network is open"), err("note: using the container tier")]
    );
}

#[test]
fn an_error_is_reported_with_its_fix_under_it() {
    let e = senv::error::SenvError::refused(
        "`pytest` is not installed in this environment".to_string(),
        "looked in /p/.venv/bin".to_string(),
        "add it with `senv add pytest`".to_string(),
    );
    assert_eq!(
        e.report_lines(),
        vec![
            err("senv: `pytest` is not installed in this environment\n  looked in /p/.venv/bin"),
            err("  → add it with `senv add pytest`"),
        ]
    );
    let e = senv::error::SenvError::Internal("boom".to_string());
    assert_eq!(e.report_lines(), vec![err("senv: boom")]);
}

#[test]
fn a_configured_uv_is_described_never_run() {
    assert_eq!(
        configured_uv_report(&Ok("/opt/uv\u{1b}[2K".to_string())),
        "/opt/uv (configured; not executed here)"
    );
    let refused = senv::error::SenvError::Uv("uv refused: inside the project".to_string());
    assert_eq!(
        configured_uv_report(&Err(refused)),
        "REFUSED — uv refused: inside the project"
    );
}

#[test]
fn doctor_lists_tiers_but_the_workspace_one_and_fails_when_a_phase_cannot_run() {
    assert!(tier_status("workspace", true, None, None).is_none());
    let t = tier_status("container", true, Some(false), Some("no runtime".to_string())).unwrap();
    assert_eq!((t.tier.as_str(), t.available, t.note.as_deref()), ("container", false, Some("no runtime")));
    let t = tier_status("supervised", true, None, None).unwrap();
    assert!(t.available);
    let mut o = DoctorOutput {
        os: "linux".to_string(),
        mechanism: "m".to_string(),
        strongest_tier: "supervised".to_string(),
        syscall_filter: true,
        memory_limit: true,
        process_limit: true,
        egress_allowlist: true,
        tiers: Vec::new(),
        supervised_missing: Vec::new(),
        uv: None,
        verdicts: Vec::new(),
    };
    assert_eq!(doctor_exit_code(&o), 0);
    o.verdicts.push(PhaseVerdict { phase: "run".to_string(), ok: true, detail: String::new() });
    assert_eq!(doctor_exit_code(&o), 0);
    o.verdicts.push(PhaseVerdict { phase: "install".to_string(), ok: false, detail: String::new() });
    assert_eq!(doctor_exit_code(&o), 1);
}

fn profile() -> senv::policy::PhaseProfile {
    senv::policy::PhaseProfile {
        name: "senv-run".to_string(),
        base: senv::config::IsolationClaim::Supervised,
        fs_read: Vec::new(),
        fs_write: Vec::new(),
        net_mode: senv::policy::NetMode::Deny,
        net_egress: Vec::new(),
        mem_bytes: 2 << 30,
        max_procs: Some(256),
        wall_secs: 3600,
        fsize_bytes: None,
        cpu_secs: None,
        tools: Vec::new(),
        env_pass: Vec::new(),
        secret_grants: Vec::new(),
        secrets: s(&["TOKEN"]),
        allow_command_extractors: false,
    }
}

#[test]
fn a_runnable_phase_shows_its_policy_and_an_unrunnable_one_only_why() {
    let notes = vec![senv::policy::Note::info("n".to_string())];
    let p = senv::cmd::inspect::phase_status_of(
        senv::policy::Phase::Run,
        senv::config::IsolationClaim::Supervised,
        &profile(),
        &s(&["/p", "/tmp"]),
        &s(&["/p/.venv"]),
        false,
        "/p",
        "/p/.venv",
        false,
        true,
        false,
        "0123",
        &notes,
    );
    assert_eq!(p.phase, "run");
    assert_eq!(p.tier.as_deref(), Some("supervised"));
    assert_eq!(p.network, "denied");
    assert_eq!(p.secrets, s(&["TOKEN"]));
    assert_eq!(p.notes, s(&["n"]));
    assert_eq!(p.policy_digest.as_deref(), Some("0123"));
    assert_eq!(
        p.resources,
        vec![
            ("mem".to_string(), "2.0 GiB".to_string()),
            ("procs".to_string(), "256 (NOT enforced on this host)".to_string()),
            ("wall".to_string(), "1h (not enforced for run/shell — use cpu)".to_string()),
        ]
    );
    assert!(p.unavailable.is_none());

    let u = senv::cmd::inspect::phase_unavailable(
        senv::policy::Phase::Install,
        "no tier\u{1b}[2K can enforce\nthis",
    );
    assert_eq!(u.phase, "install");
    assert_eq!(u.tier, None);
    assert_eq!(u.network, "—");
    assert_eq!(u.unavailable.as_deref(), Some("no tier can enforce\nthis"));
    assert!(u.writable.is_empty() && u.resources.is_empty() && u.policy_digest.is_none());
}

fn record(ts: &str, argv: &[&str], exit_code: Option<i32>, denials: Vec<senv::receipt::Denial>) -> senv::receipt::Record {
    senv::receipt::Record {
        ts: ts.to_string(),
        ts_ms: 0,
        phase: "run".to_string(),
        tier: "supervised".to_string(),
        policy_digest: "d".to_string(),
        argv: s(argv),
        exit_code,
        timed_out: false,
        wall_ms: 1,
        cpu_ms: None,
        max_rss_kb: None,
        net: senv::receipt::NetRecord {
            mode: "deny".to_string(),
            egress: Vec::new(),
            allowed: None,
            denied: None,
        },
        denials,
        notes: Vec::new(),
        secrets: Vec::new(),
        output_tail: None,
    }
}

fn denial(kind: senv::receipt::DenialKind, target: &str) -> senv::receipt::Denial {
    senv::receipt::Denial {
        kind,
        target: target.to_string(),
        verdict: senv::receipt::Verdict::Suggestable,
        evidence: String::new(),
    }
}

#[test]
fn a_report_lists_the_newest_first_and_tallies_every_receipt() {
    let net = senv::receipt::DenialKind::Network;
    let fs = senv::receipt::DenialKind::Filesystem;
    let records = vec![
        record("t1", &["/usr/bin/python", "a.py"], Some(0), vec![denial(net, "a.example")]),
        record("t2", &["pytest"], Some(1), vec![denial(fs, "/data"), denial(net, "a.example")]),
        record("t3", &["uv", "sync"], None, Vec::new()),
    ];
    let r = senv::cmd::inspect::report_of("/s/receipt.jsonl", &records, 2, false);
    assert_eq!(r.receipt, "/s/receipt.jsonl");
    assert_eq!(r.total_commands, 3);
    assert_eq!(r.recent.len(), 2);
    assert_eq!(r.recent[0].ts, "t3");
    assert_eq!(r.recent[0].command, "uv sync");
    assert_eq!(r.recent[0].exit_code, None);
    assert_eq!(r.recent[1].ts, "t2");
    assert_eq!(r.recent[1].denials, 2);
    assert_eq!(r.blocked_hosts, s(&["a.example"]));
    assert_eq!(r.blocked_paths, s(&["/data"]));
    assert_eq!(r.blocked_unnamed, 0);
    assert!(r.suggestion.is_none());
    let r = senv::cmd::inspect::report_of("x", &records, 10, true);
    assert_eq!(r.recent.len(), 3);
    assert_eq!(r.recent[2].command, "python a.py");
    let stanza = r.suggestion.expect("asked for");
    assert!(stanza.contains("a.example") && stanza.contains("/data"));
}

#[test]
fn program_output_cannot_forge_senvs_framing() {
    // What a program printed; the line quoting it must be clean.
    let r = senv::receipt::Receipts::new("/dev/null".to_string(), vec!["/state/venv".to_string()]);
    let denials = r.analyze(
        "\u{1b}[2K\rPermission denied: /home/u/\u{1b}[32mSAFE\u{1b}[0m\u{7}\n",
    );
    let framed = senv::exec::denial_report(&denials);
    assert!(!framed.is_empty(), "senv should have reported a denial");
    for line in &framed {
        assert!(!line.contains('\u{1b}'), "escape survived into senv's output: {line:?}");
        assert!(!line.contains('\u{7}'), "BEL survived into senv's output: {line:?}");
    }
}

#[test]
fn doctor_says_how_each_phase_would_run_or_why_it_cannot() {
    let v = senv::cmd::inspect::runnable_verdict(
        senv::policy::Phase::Run,
        senv::config::IsolationClaim::Supervised,
        &profile(),
        false,
    );
    assert_eq!((v.phase.as_str(), v.ok, v.detail.as_str()), ("run", true, "supervised tier, network denied"));
    let e = senv::error::SenvError::Sandbox("no tier can enforce an allowlist here".to_string());
    let v = senv::cmd::inspect::refused_verdict(senv::policy::Phase::Install, &e);
    assert_eq!(
        (v.phase.as_str(), v.ok, v.detail.as_str()),
        ("install", false, "no tier can enforce an allowlist here")
    );
}

#[test]
fn blocked_hosts_and_paths_come_once_each_in_the_order_first_seen() {
    let net = senv::receipt::DenialKind::Network;
    let fs = senv::receipt::DenialKind::Filesystem;
    let records = vec![
        record("t1", &["a"], Some(1), vec![denial(net, "z.example"), denial(fs, "/b")]),
        record("t2", &["b"], Some(1), vec![denial(net, "a.example"), denial(net, "z.example")]),
        record("t3", &["c"], Some(1), vec![denial(fs, "/a"), denial(fs, "/b")]),
    ];
    let r = senv::cmd::inspect::report_of("x", &records, 1, false);
    assert_eq!(r.blocked_hosts, s(&["z.example", "a.example"]));
    assert_eq!(r.blocked_paths, s(&["/b", "/a"]));
}
