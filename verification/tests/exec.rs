use senv::exec::{clamp_exit, exit_code_of, wrap};

#[test]
fn wrapping_keeps_words_whole_and_indents_continuations() {
    let text = "the quick brown fox jumps over the lazy dog and keeps going for a while";
    let wrapped = wrap(text, 20, 2);
    for line in wrapped.lines() {
        assert!(line.trim_end().len() <= 22, "too long: {line:?}");
    }
    assert!(wrapped.lines().skip(1).all(|l| l.starts_with("  ")));
    let rejoined: String = wrapped.split_whitespace().collect::<Vec<_>>().join(" ");
    assert_eq!(rejoined, text, "wrapping must not lose or reorder words");
}

#[test]
fn a_timeout_reports_the_conventional_code_rather_than_success() {
    assert_eq!(exit_code_of(Some(0), false), 0);
    assert_eq!(exit_code_of(Some(3), false), 3);
    assert_eq!(exit_code_of(None, true), 124);
    assert_eq!(exit_code_of(None, false), 1);
}

#[test]
fn a_word_longer_than_the_width_stays_whole() {
    let wrapped = wrap("a supercalifragilistic b", 5, 0);
    assert!(wrapped.lines().any(|l| l.trim() == "supercalifragilistic"), "{wrapped:?}");
}

#[test]
fn exit_codes_fit_a_process_exit_status() {
    assert_eq!(clamp_exit(0), 0);
    assert_eq!(clamp_exit(255), 255);
    assert_eq!(clamp_exit(256), 1);
    assert_eq!(clamp_exit(-9), 1);
}

#[test]
fn captured_stderr_keeps_its_end() {
    assert_eq!(senv::exec::keep_tail(vec![1, 2, 3], 5), vec![1, 2, 3]);
    assert_eq!(senv::exec::keep_tail(vec![1, 2, 3, 4, 5, 6], 4), vec![3, 4, 5, 6]);
    assert_eq!(senv::exec::keep_tail(vec![7, 8], 0), Vec::<u8>::new());
    let big: Vec<u8> = (0..300_000u32).map(|i| (i % 251) as u8).collect();
    let kept = senv::exec::keep_tail(big.clone(), senv::exec::MAX_OBSERVED);
    assert_eq!(kept.len(), 262_144);
    assert_eq!(&kept[..], &big[big.len() - 262_144..]);
}
