use senv::receipt::{looks_like_host, strip_declared, DenialKind, Receipts, UNNAMED_HOST};

fn receipts() -> Receipts {
    Receipts::new("/dev/null".to_string(), vec!["/state/venv".to_string()])
}

#[test]
fn a_module_path_is_never_mistaken_for_a_host() {
    assert!(!looks_like_host("urllib3.exceptions.NameResolutionError"));
    assert!(!looks_like_host("socket.gaierror"));
    assert!(!looks_like_host("requests.exceptions.ConnectionError"));
    assert!(!looks_like_host("setup.py"));
    assert!(looks_like_host("api.example.com"));
    assert!(looks_like_host("files.pythonhosted.org"));
}

#[test]
fn a_blocked_connection_names_the_host() {
    let r = receipts();
    let out = "urllib3.exceptions.NameResolutionError: Failed to resolve 'api.example.com' \
               ([Errno -3] Temporary failure in name resolution)";
    let d = r.analyze(out);
    assert_eq!(d.len(), 1, "{d:?}");
    assert_eq!(d[0].kind, DenialKind::Network);
    assert_eq!(d[0].target, "api.example.com");
    assert!(d[0].verdict.is_suggestable());
}

#[test]
fn a_blocked_url_fetch_names_the_host() {
    let r = receipts();
    let d = r.analyze(
        "error sending request for url (https://download.pytorch.org/whl/torch.whl): \
         Network is unreachable",
    );
    assert_eq!(d[0].target, "download.pytorch.org");
}

#[test]
fn a_blocked_read_names_the_path() {
    let r = receipts();
    let d = r.analyze("PermissionError: [Errno 13] Permission denied: '/home/u/datasets/x.csv'");
    assert_eq!(d.len(), 1, "{d:?}");
    assert_eq!(d[0].kind, DenialKind::Filesystem);
    assert_eq!(d[0].target, "/home/u/datasets/x.csv");
    assert!(d[0].verdict.is_suggestable());
}

#[test]
fn writing_to_the_environment_is_never_suggested_as_something_to_allow() {
    let r = receipts();
    let d = r.analyze("OSError: [Errno 30] Read-only file system: '/state/venv/lib/python3.13/x.py'");
    assert_eq!(d.len(), 1);
    assert!(!d[0].verdict.is_suggestable(), "{:?}", d[0].verdict);
    let reason = d[0].verdict.reason().expect("a by-design verdict");
    assert!(reason.contains("read-only"), "{reason}");
}

#[test]
fn credential_paths_are_never_suggested_either() {
    let r = receipts();
    let d = r.analyze("cat: /home/u/.ssh/id_ed25519: Permission denied");
    assert!(!d[0].verdict.is_suggestable());
    let reason = d[0].verdict.reason().expect("a by-design verdict");
    assert!(reason.contains("credential"), "{reason}");
}

#[test]
fn a_traceback_that_names_the_host_above_the_error_is_understood() {
    let r = receipts();
    let traceback = "Traceback (most recent call last):\n  \
                     File \"/proj/probe.py\", line 2, in <module>\n    \
                     socket.create_connection(('api.example.com', 443), 5)\n  \
                     File \"/usr/lib/python3.12/socket.py\", line 828, in create_connection\n    \
                     for res in getaddrinfo(host, port, 0, SOCK_STREAM):\n\
                     socket.gaierror: [Errno -3] Temporary failure in name resolution";
    let d = r.analyze(traceback);
    assert_eq!(d.len(), 1, "{d:?}");
    assert_eq!(d[0].target, "api.example.com");
    assert!(d[0].verdict.is_suggestable());
}

#[test]
fn a_refusal_with_no_host_anywhere_is_still_reported() {
    let r = receipts();
    let d = r.analyze("socket.gaierror: [Errno -3] Temporary failure in name resolution");
    assert_eq!(d.len(), 1);
    assert_eq!(d[0].target, UNNAMED_HOST);
    assert!(!d[0].verdict.is_suggestable(), "there is nothing to suggest");
    assert!(d[0].verdict.reason().unwrap().contains("did not name"));
}

#[test]
fn ordinary_output_produces_no_denials() {
    let r = receipts();
    for benign in [
        "Successfully installed requests-2.32.0",
        "test_permissions.py::test_denied PASSED",
        "INFO: connected to database at db.internal",
        "  1 passed in 0.42s",
    ] {
        assert!(r.analyze(benign).is_empty(), "false positive on: {benign}");
    }
}

#[test]
fn the_same_denial_is_recorded_once_however_often_it_repeats() {
    let r = receipts();
    let noisy = (0..50)
        .map(|_| "Permission denied: '/home/u/data'")
        .collect::<Vec<_>>()
        .join("\n");
    assert_eq!(r.analyze(&noisy).len(), 1);
}

#[test]
fn declared_secret_values_are_stripped_before_writing() {
    let text = "token=supersecretvalue123 and again supersecretvalue123";
    let clean = strip_declared(text, &["supersecretvalue123".to_string()]);
    assert!(!clean.contains("supersecretvalue123"), "{clean}");
    assert_eq!(clean, "token=«redacted» and again «redacted»");
}

#[test]
fn a_path_inside_the_environment_is_classified_by_component() {
    let r = receipts();
    assert!(!r.classify_path("/state/venv/lib/x.py").is_suggestable());
    assert!(r.classify_path("/state/venv-other/x").is_suggestable());
}

fn profile(net_mode: senv::policy::NetMode, egress: &[&str]) -> senv::policy::PhaseProfile {
    senv::policy::PhaseProfile {
        name: "senv-run".to_string(),
        base: senv::config::IsolationClaim::Supervised,
        fs_read: Vec::new(),
        fs_write: Vec::new(),
        net_mode,
        net_egress: egress.iter().map(|h| h.to_string()).collect(),
        mem_bytes: 1 << 30,
        max_procs: None,
        wall_secs: 3600,
        fsize_bytes: None,
        cpu_secs: None,
        tools: Vec::new(),
        env_pass: Vec::new(),
        secret_grants: Vec::new(),
        secrets: Vec::new(),
        allow_command_extractors: false,
    }
}

#[test]
fn a_failed_command_keeps_its_redacted_tail_and_its_denials() {
    let argv = vec!["python".to_string(), "train.py".to_string()];
    let clean = "Traceback\nPermission denied: '/home/u/datasets/x.csv'\n\n";
    let done = senv::receipt::Completion {
        argv: &argv,
        exit_code: Some(1),
        timed_out: false,
        wall_ms: 1500,
        cpu_ms: Some(900),
        max_rss_kb: Some(2048),
        output: "raw output with hunter2",
        secrets: vec!["TOKEN sha256:ab12".to_string()],
        redactions: &[],
    };
    let notes = vec![senv::policy::Note::warn("network is open".to_string())];
    let r = receipts().record(
        86_400_000,
        senv::policy::Phase::Run,
        senv::config::IsolationClaim::Supervised,
        "digest",
        &profile(senv::policy::NetMode::Deny, &["api.example.com"]),
        &notes,
        done,
        clean,
    );
    assert_eq!(r.ts, "1970-01-02T00:00:00Z");
    assert_eq!(r.ts_ms, 86_400_000);
    assert_eq!(r.phase, "run");
    assert_eq!(r.tier, "supervised");
    assert_eq!(r.policy_digest, "digest");
    assert_eq!(r.argv, argv);
    assert_eq!(r.exit_code, Some(1));
    assert_eq!(r.cpu_ms, Some(900));
    assert_eq!(r.max_rss_kb, Some(2048));
    assert_eq!(r.net.mode, "deny");
    assert_eq!(r.net.egress, vec!["api.example.com".to_string()]);
    assert_eq!(r.net.allowed, None);
    assert_eq!(r.notes, vec!["network is open".to_string()]);
    assert_eq!(r.secrets, vec!["TOKEN sha256:ab12".to_string()]);
    assert_eq!(r.denials.len(), 1);
    assert_eq!(r.denials[0].kind, DenialKind::Filesystem);
    assert_eq!(r.denials[0].target, "/home/u/datasets/x.csv");
    assert_eq!(
        r.output_tail.as_deref(),
        Some("Traceback\nPermission denied: '/home/u/datasets/x.csv'")
    );
}

#[test]
fn a_successful_command_leaves_no_output_in_its_receipt() {
    let argv = vec!["pytest".to_string()];
    let done = senv::receipt::Completion {
        argv: &argv,
        exit_code: Some(0),
        timed_out: false,
        wall_ms: 10,
        cpu_ms: None,
        max_rss_kb: None,
        output: "all good",
        secrets: Vec::new(),
        redactions: &[],
    };
    let r = receipts().record(
        0,
        senv::policy::Phase::Install,
        senv::config::IsolationClaim::Container,
        "d",
        &profile(senv::policy::NetMode::Host, &[]),
        &[],
        done,
        "all good",
    );
    assert_eq!(r.output_tail, None);
    assert_eq!(r.net.mode, "host");
    assert_eq!(r.phase, "install");
    assert_eq!(r.tier, "container");
    assert_eq!(r.ts, "1970-01-01T00:00:00Z");
}

#[test]
fn no_declared_value_survives_stripping() {
    let values = vec!["hunter22".to_string(), "abc".to_string(), "s3cr3t-token".to_string()];
    let out = strip_declared("login hunter22 then s3cr3t-token and hunter22hunter22; abc", &values);
    assert!(!out.contains("hunter22"));
    assert!(!out.contains("s3cr3t-token"));
    assert!(out.contains("abc"), "values under four bytes are left alone");
}

#[test]
fn analyzed_denials_name_each_target_once_and_drop_the_anonymous_one_when_a_host_is_named() {
    let out = "Could not resolve host: files.example.org\nNetwork is unreachable\nPermission denied: '/home/u/data'\nPermission denied: '/home/u/data'";
    let ds = receipts().analyze(out);
    for (i, a) in ds.iter().enumerate() {
        for b in &ds[i + 1..] {
            assert!(!(a.kind == b.kind && a.target == b.target));
        }
        assert!(a.target != UNNAMED_HOST);
    }
    assert!(ds.iter().any(|d| d.kind == DenialKind::Network && d.target == "files.example.org"));
}
