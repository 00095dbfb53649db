use senv::cmd::inspect::{format_duration, shorten_command, status_warnings, suggest_stanza, toml_string};
use senv::project::Provenance;
use senv::config::validate_host_pattern;

#[test]
fn a_suggestion_is_valid_toml_that_matches_the_real_schema() {
    let stanza = suggest_stanza(
        &["api.example.com".to_string(), "*.s3.amazonaws.com".to_string()],
        &["/home/u/datasets".to_string()],
    );
    let parsed: toml::Value = toml::from_str(&stanza).expect("the suggestion must be TOML");
    let hosts = parsed["run"]["net"].as_array().expect("an allowlist");
    assert_eq!(hosts.len(), 2);
    for h in hosts {
        validate_host_pattern(h.as_str().unwrap()).expect("and each host must validate");
    }
    let reads: Vec<&str> = parsed["run"]["fs"]["read"]
        .as_array()
        .unwrap()
        .iter()
        .map(|v| v.as_str().unwrap())
        .collect();
    assert_eq!(reads, vec!["/home/u/datasets"]);
}

#[test]
fn nothing_blocked_produces_no_stanza_to_paste() {
    let stanza = suggest_stanza(&[], &[]);
    assert!(stanza.contains("nothing was blocked"));
    let parsed: toml::Value = toml::from_str(&stanza).expect("still valid TOML");
    assert!(parsed.get("run").is_none(), "and it opens nothing");
}

#[test]
fn durations_read_as_the_user_wrote_them() {
    assert_eq!(format_duration(1800), "30m");
    assert_eq!(format_duration(3600), "1h");
    assert_eq!(format_duration(45), "45s");
    assert!(format_duration(365 * 24 * 3600).contains("unbounded"));
}

#[test]
fn a_uv_invocation_reads_as_a_command_not_a_path() {
    let argv = vec![
        "/home/u/.local/bin/uv".to_string(),
        "sync".to_string(),
        "--locked".to_string(),
    ];
    assert_eq!(shorten_command(&argv), "uv sync --locked");
}

#[test]
fn a_suggested_string_survives_quotes_and_backslashes() {
    let quoted = toml_string("a\"b\\c");
    let parsed: toml::Value = toml::from_str(&format!("x = {quoted}")).unwrap();
    assert_eq!(parsed["x"].as_str(), Some("a\"b\\c"));
}

#[test]
fn status_warns_about_an_adopted_environment_and_missing_bytecode() {
    let w = status_warnings(Some("link".to_string()), Provenance::HostInstalled, true, None);
    assert_eq!(w.len(), 2);
    assert!(w[1].contains("adopted from an existing .venv"));
    let w = status_warnings(None, Provenance::Sandboxed, false, Some("3.9.6"));
    assert_eq!(w.len(), 1);
    assert!(w[0].contains("(3.9.6)"), "{}", w[0]);
    assert!(status_warnings(None, Provenance::Sandboxed, true, None).is_empty());
}
