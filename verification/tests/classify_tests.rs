use pg_crunch::{analyze_line, strip_spaces, MatchResult};

#[test]
fn non_entry_line_is_ignored() {
    let r = analyze_line("SELECT 1");
    assert!(matches!(r, MatchResult::Ignore));
}

#[test]
fn continuation_with_leading_spaces_is_ignored() {
    let r = analyze_line("   foo WHERE x = 1");
    assert!(matches!(r, MatchResult::Ignore));
}

#[test]
fn entry_without_pid_is_ignored() {
    let r = analyze_line("2024-01-01 something without a session marker");
    assert!(matches!(r, MatchResult::Ignore));
}

#[test]
fn statement_line_classifies() {
    let r = analyze_line("2024-01-01 10:00:00 UTC 12(23): statement: SELECT 1");
    match r {
        MatchResult::QueryStart(pid, frag) => {
            assert_eq!(pid, 23);
            assert_eq!(frag, "SELECT 1");
        }
        _ => panic!("expected a statement start"),
    }
}

#[test]
fn duration_line_classifies() {
    let r = analyze_line("2024-01-01 10:00:01 UTC 12(23): duration: 1.234 ms");
    match r {
        MatchResult::Duration(pid, dur) => {
            assert_eq!(pid, 23);
            assert_eq!(dur, "1.234");
        }
        _ => panic!("expected a duration"),
    }
}

#[test]
fn duration_takes_priority_over_statement() {
    let r = analyze_line("2024-01-01 10:00:01 UTC 12(5): statement: duration: 2.5 ms");
    match r {
        MatchResult::Duration(pid, dur) => {
            assert_eq!(pid, 5);
            assert_eq!(dur, "2.5");
        }
        _ => panic!("expected the duration to win"),
    }
}

#[test]
fn execute_form_captures_after_last_separator() {
    let r = analyze_line("2024-01-01 10:00:00 UTC 12(7): execute st_1: SELECT 42");
    match r {
        MatchResult::QueryStart(pid, frag) => {
            assert_eq!(pid, 7);
            assert_eq!(frag, "SELECT 42");
        }
        _ => panic!("expected a statement start"),
    }
}

#[test]
fn three_digit_head_is_accepted() {
    let r = analyze_line("2024-01-01 10:00:00 UTC 123(456): duration: 10 ms");
    match r {
        MatchResult::Duration(pid, dur) => {
            assert_eq!(pid, 456);
            assert_eq!(dur, "10");
        }
        _ => panic!("expected a duration"),
    }
}

#[test]
fn statement_fragment_is_whitespace_normalized() {
    let r = analyze_line("2024-01-01 10:00:00 UTC 12(23): statement: SELECT\t\t1,   2");
    match r {
        MatchResult::QueryStart(_, frag) => {
            assert_eq!(frag, "SELECT 1, 2");
        }
        _ => panic!("expected a statement start"),
    }
}

#[test]
fn duration_numeral_keeps_original_formatting() {
    let r = analyze_line("2024-01-01 10:00:01 UTC 12(23): duration: 0.500 ms");
    match r {
        MatchResult::Duration(_, dur) => {
            assert_eq!(dur, "0.500");
        }
        _ => panic!("expected a duration"),
    }
}

#[test]
fn duration_without_ms_suffix_is_no_duration() {
    let r = analyze_line("2024-01-01 10:00:01 UTC 12(23): duration: 1.234 s");
    assert!(matches!(r, MatchResult::Ignore));
}

#[test]
fn oversized_process_id_is_ignored() {
    let r = analyze_line("2024-01-01 10:00:01 UTC 12(99999999999): duration: 1 ms");
    assert!(matches!(r, MatchResult::Ignore));
}

#[test]
fn process_id_with_leading_zeros_still_fits() {
    let r = analyze_line("2024-01-01 10:00:01 UTC 12(0000000023): duration: 1 ms");
    match r {
        MatchResult::Duration(pid, _) => assert_eq!(pid, 23),
        _ => panic!("expected a duration"),
    }
}

#[test]
fn strip_spaces_collapses_runs() {
    assert_eq!(strip_spaces("a\t\t  b"), "a b");
    assert_eq!(strip_spaces("  x  "), " x ");
    assert_eq!(strip_spaces("plain"), "plain");
    assert_eq!(strip_spaces(""), "");
}

#[test]
fn strip_spaces_handles_unicode_whitespace() {
    assert_eq!(strip_spaces("a\u{a0}\u{2003}b"), "a b");
}
