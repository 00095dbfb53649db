use senv::util::{expand_tilde_in, format_utc, human_bytes, sanitize, sanitize_multiline, sha256_hex, tail};

#[test]
fn utc_formatting_matches_known_instants() {
    assert_eq!(format_utc(0), "1970-01-01T00:00:00Z");
    // 2026-08-13T00:00:00Z
    assert_eq!(format_utc(1_786_579_200_000), "2026-08-13T00:00:00Z");
    // A leap day, the case a hand-rolled calendar gets wrong.
    assert_eq!(format_utc(1_709_164_800_000), "2024-02-29T00:00:00Z");
}

#[test]
fn byte_sizes_read_the_way_people_expect() {
    assert_eq!(human_bytes(512), "512 B");
    assert_eq!(human_bytes(2048), "2.0 KiB");
    assert_eq!(human_bytes(5 * 1024 * 1024), "5.0 MiB");
}

#[test]
fn tail_never_splits_a_character() {
    let s = "αβγδεζηθ";
    let t = tail(s, 5);
    assert!(t.starts_with('…'));
    assert!(t.len() <= s.len() + 3);
}

#[test]
fn terminal_escapes_cannot_be_smuggled_through_senvs_own_messages() {
    let hostile = "\u{1b}[2K\rPermission denied: /home/u/\u{1b}[32mSAFE\u{1b}[0m\u{7}";
    let clean = sanitize(hostile);
    assert_eq!(clean, "Permission denied: /home/u/SAFE", "{clean:?}");
    assert!(!clean.contains('\u{1b}'));
    assert!(!clean.contains('\r'));

    assert_eq!(sanitize("a\u{1b}]0;title\u{7}b"), "ab");
    assert_eq!(sanitize("a\u{1b}]8;;http://evil\u{1b}\\b"), "ab");

    assert_eq!(sanitize("one\ntwo"), "onetwo");

    assert_eq!(sanitize("evil\u{202e}moc.elpmaxe"), "evilmoc.elpmaxe");

    assert_eq!(
        sanitize("ドメイン\tok-1.example.com"),
        "ドメイン\tok-1.example.com"
    );
}

#[test]
fn tilde_expands_only_at_the_front() {
    let home = Some("/home/example");
    assert_eq!(expand_tilde_in("~/x", home), "/home/example/x");
    assert_eq!(expand_tilde_in("~", home), "/home/example");
    assert_eq!(expand_tilde_in("/a/~/b", home), "/a/~/b");
    assert_eq!(expand_tilde_in("~notauser/x", home), "~notauser/x");
    assert_eq!(expand_tilde_in("~/x", None), "~/x");
    assert_eq!(expand_tilde_in("~/x", Some("")), "~/x");
}

#[test]
fn multiline_sanitizing_keeps_the_line_breaks_and_nothing_else() {
    assert_eq!(sanitize_multiline("a\u{1b}[31mb\nc\u{7}d"), "ab\ncd");
    assert_eq!(sanitize_multiline("one\r\ntwo"), "one\ntwo");
}

#[test]
fn a_short_text_is_not_cut() {
    assert_eq!(tail("abc", 10), "abc");
    assert_eq!(tail("abcdef", 3), "…def");
}

#[test]
fn sizes_at_the_unit_boundaries() {
    assert_eq!(human_bytes(0), "0 B");
    assert_eq!(human_bytes(1023), "1023 B");
    assert_eq!(human_bytes(1024), "1.0 KiB");
    assert_eq!(human_bytes(1536), "1.5 KiB");
    assert_eq!(human_bytes(3 * 1024 * 1024 * 1024), "3.0 GiB");
}

#[test]
fn the_digest_is_the_sha256_of_the_bytes() {
    assert_eq!(
        sha256_hex(b"abc"),
        "ba7816bf8f01cfea414140de5dae2223b00361a396177a9cb410ff61f20015ad"
    );
    assert_eq!(
        sha256_hex(b""),
        "e3b0c44298fc1c149afbf4c8996fb92427ae41e4649b934ca495991b7852b855"
    );
}

#[test]
fn sanitizing_only_takes_characters_out_and_is_settled_after_once() {
    for text in ["plain", "a\u{1b}[31mred\u{1b}[0m\tb", "x\u{202e}y\u{7}z", "\u{1b}]0;title\u{7}rest"] {
        let once = sanitize(text);
        assert_eq!(sanitize(&once), once);
        let mut it = text.chars();
        assert!(once.chars().all(|c| it.any(|d| d == c)), "{once:?} is not drawn from {text:?}");
    }
}

#[test]
fn multiline_sanitizing_keeps_only_tabs_and_line_breaks() {
    let out = sanitize_multiline("one\u{1b}[2K\ttwo\r\nthree\u{7}\n\u{202a}four");
    assert_eq!(out, "one\ttwo\nthree\nfour");
    assert!(out.chars().all(|c| c == '\n' || c == '\t' || !c.is_control()));
}

#[test]
fn a_tail_is_bounded_and_ends_the_text() {
    let text = "0123456789abcdef";
    let t = tail(text, 5);
    assert!(t.len() <= 5 + 3);
    assert!(t.starts_with('…'));
    assert!(text.ends_with(&t['…'.len_utf8()..]));
    assert_eq!(tail("short", 5), "short");
}
