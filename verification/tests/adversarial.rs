use senv::config::{validate_host_pattern, validate_python_request};
use senv::exec::wrap;
use senv::project::project_key;
use senv::receipt::Receipts;
use senv::util::{expand_tilde_in, sanitize, sanitize_multiline, tail};
use senv::uv::staging_for;

fn nasty() -> Vec<String> {
    let mut v: Vec<String> = Vec::new();
    for base in [
        "", " ", "\0", "\u{1b}[2K", "\r\n", "\u{202e}", "\u{feff}", "..", "../..", "/", "//", "/.",
        "~", "~~", "~/", "-", "--", ":", "::", "[", "]", "[]", "[::1]", "[::1]:x", "a:", ":80",
        "\u{10ffff}", "é", "🙂", "\t", "'", "\"", "\\", "$(id)", "`id`", "%s%s%s", "{}", "{0}",
        "a.b.", ".a", "*.", "*", "*.*",
    ] {
        v.push(base.to_string());
        v.push(base.repeat(64));
        v.push(format!("{base}{}", "A".repeat(300)));
        v.push(format!("/{}/{base}", "x".repeat(200)));
    }
    v.push("\u{1b}]8;;".to_string());
    v.push("\u{1b}[".to_string());
    v
}

#[test]
fn no_untrusted_input_parser_panics() {
    let r = Receipts::new("/dev/null".to_string(), vec!["/state/venv".to_string()]);
    for s in nasty() {
        let _ = r.analyze(&s);
        let _ = r.analyze(&format!("Permission denied: '{s}'"));
        let _ = r.analyze(&format!("Failed to resolve '{s}' (getaddrinfo)"));
        let _ = r.analyze(&format!("{s}\nOperation not permitted\nsocket.py"));
        let _ = validate_host_pattern(&s);
        let _ = validate_python_request(&s);
        let _ = sanitize(&s);
        let _ = sanitize_multiline(&s);
        let _ = tail(&s, 7);
        let _ = expand_tilde_in(&s, Some("/home/example"));
        let _ = wrap(&s, 20, 3);
        let _ = staging_for(&s);
        let _ = project_key(&s);
    }
}

#[test]
fn a_project_key_is_always_usable_however_odd_the_directory_name() {
    for s in nasty() {
        let key = project_key(&s);
        assert!(!key.is_empty(), "empty key for {s:?}");
        assert!(
            key.chars().all(|c| c.is_ascii_alphanumeric() || c == '-' || c == '_'),
            "unusable key {key:?} for {s:?}"
        );
        assert!(key.len() <= 64, "key too long ({}) for {s:?}", key.len());
    }
}
