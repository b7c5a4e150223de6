use pg_crunch::{hash_query, CrunchState, OutputRecord};

fn feed(lines: &[&str]) -> Vec<OutputRecord> {
    let mut state = CrunchState::new();
    let mut records = Vec::new();
    for line in lines {
        let (next, rec) = state.process_line((*line).to_string());
        state = next;
        if let Some(rec) = rec {
            records.push(rec);
        }
    }
    records
}

#[test]
fn single_statement_and_duration_emit_one_record() {
    let records = feed(&[
        "2024-01-01 10:00:00 UTC 12(23): statement: SELECT 1",
        "2024-01-01 10:00:01 UTC 12(23): duration: 1.234 ms",
    ]);
    assert_eq!(records.len(), 1);
    assert_eq!(records[0].pid, 23);
    assert_eq!(records[0].duration, "1.234");
    assert_eq!(records[0].fingerprint, hash_query("SELECT 1"));
    assert_eq!(records[0].query, "SELECT 1");
}

#[test]
fn statement_over_two_lines_reassembles() {
    let records = feed(&[
        "2024-01-01 10:00:00 UTC 12(23): statement: SELECT * FROM",
        "   foo WHERE x = 1",
        "2024-01-01 10:00:02 UTC 12(23): duration: 2.0 ms",
    ]);
    assert_eq!(records.len(), 1);
    assert_eq!(records[0].pid, 23);
    assert_eq!(records[0].duration, "2.0");
    assert_eq!(records[0].query, "SELECT * FROM foo WHERE x = 1");
    assert_eq!(
        records[0].fingerprint,
        hash_query("SELECT * FROM foo WHERE x = 1")
    );
}

#[test]
fn irrelevant_lines_leave_idle_state_alone() {
    let records = feed(&[
        "noise that is no log entry",
        "   more noise",
        "2024-01-01 10:00:01 UTC 12(23): duration: 1 ms",
    ]);
    assert!(records.is_empty());
}

#[test]
fn dangling_duration_emits_nothing() {
    let records = feed(&["2024-01-01 10:00:01 UTC 12(23): duration: 1.234 ms"]);
    assert!(records.is_empty());
}

#[test]
fn duration_consumes_the_pending_entry() {
    let records = feed(&[
        "2024-01-01 10:00:00 UTC 12(23): statement: SELECT 1",
        "2024-01-01 10:00:01 UTC 12(23): duration: 1.234 ms",
        "2024-01-01 10:00:02 UTC 12(23): duration: 1.234 ms",
    ]);
    assert_eq!(records.len(), 1);
}

#[test]
fn second_statement_overwrites_the_first() {
    let records = feed(&[
        "2024-01-01 10:00:00 UTC 12(23): statement: SELECT 1",
        "2024-01-01 10:00:01 UTC 12(23): statement: SELECT 2",
        "2024-01-01 10:00:02 UTC 12(23): duration: 3 ms",
    ]);
    assert_eq!(records.len(), 1);
    assert_eq!(records[0].query, "SELECT 2");
}

#[test]
fn distinct_processes_are_paired_independently() {
    let records = feed(&[
        "2024-01-01 10:00:00 UTC 12(1): statement: SELECT 'a'",
        "2024-01-01 10:00:00 UTC 12(2): statement: SELECT 'b'",
        "2024-01-01 10:00:01 UTC 12(2): duration: 2 ms",
        "2024-01-01 10:00:01 UTC 12(1): duration: 1 ms",
    ]);
    assert_eq!(records.len(), 2);
    assert_eq!(records[0].pid, 2);
    assert_eq!(records[0].query, "SELECT 'b'");
    assert_eq!(records[1].pid, 1);
    assert_eq!(records[1].query, "SELECT 'a'");
}

#[test]
fn boundary_line_is_itself_dispatched() {
    // The duration line both finalizes the buffered statement and reports
    // the duration that consumes it.
    let records = feed(&[
        "2024-01-01 10:00:00 UTC 12(9): statement: UPDATE t",
        "   SET x = 2",
        "2024-01-01 10:00:01 UTC 12(9): duration: 5.5 ms",
    ]);
    assert_eq!(records.len(), 1);
    assert_eq!(records[0].query, "UPDATE t SET x = 2");
}

#[test]
fn empty_statement_text_is_tracked() {
    let records = feed(&[
        "2024-01-01 10:00:00 UTC 12(3): statement: ",
        "2024-01-01 10:00:01 UTC 12(3): duration: 1 ms",
    ]);
    assert_eq!(records.len(), 1);
    assert_eq!(records[0].query, "");
    assert_eq!(records[0].fingerprint, hash_query(""));
}

#[test]
fn bare_entry_line_changes_nothing() {
    let records = feed(&[
        "2024-01-01 ",
        "2024-01-01 10:00:00 UTC 12(3): statement: SELECT 9",
        "2024-01-01 log entry of an unrelated subsystem",
        "2024-01-01 10:00:01 UTC 12(3): duration: 4 ms",
    ]);
    // The unrelated entry line still finalizes the buffered statement.
    assert_eq!(records.len(), 1);
    assert_eq!(records[0].query, "SELECT 9");
}

#[test]
fn fingerprints_are_deterministic() {
    assert_eq!(hash_query("SELECT 1"), hash_query("SELECT 1"));
    let first = feed(&[
        "2024-01-01 10:00:00 UTC 12(23): statement: SELECT 1",
        "2024-01-01 10:00:01 UTC 12(23): duration: 1 ms",
    ]);
    let second = feed(&[
        "2024-01-01 10:00:00 UTC 12(23): statement: SELECT 1",
        "2024-01-01 10:00:01 UTC 12(23): duration: 1 ms",
    ]);
    assert_eq!(first[0].fingerprint, second[0].fingerprint);
}
