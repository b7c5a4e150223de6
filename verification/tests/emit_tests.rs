use pg_crunch::{hash_query, u64_to_string, CrunchState, OutputRecord};

#[test]
fn u64_renders_in_decimal() {
    assert_eq!(u64_to_string(0), "0");
    assert_eq!(u64_to_string(7), "7");
    assert_eq!(u64_to_string(12345), "12345");
    assert_eq!(u64_to_string(u64::MAX), "18446744073709551615");
}

#[test]
fn plain_record_renders_unquoted() {
    let record = OutputRecord {
        pid: 23,
        duration: "1.234".to_string(),
        fingerprint: hash_query("SELECT 1"),
        query: "SELECT 1".to_string(),
    };
    let expected = format!("23,1.234,{},SELECT 1\n", hash_query("SELECT 1"));
    assert_eq!(record.to_csv_line(), expected);
}

#[test]
fn query_with_separator_and_quotes_is_quoted() {
    let record = OutputRecord {
        pid: 5,
        duration: "2".to_string(),
        fingerprint: 10,
        query: "SELECT \"a\", b".to_string(),
    };
    assert_eq!(record.to_csv_line(), "5,2,10,\"SELECT \"\"a\"\", b\"\n");
}

#[test]
fn query_with_line_break_is_quoted() {
    let record = OutputRecord {
        pid: 1,
        duration: "3".to_string(),
        fingerprint: 2,
        query: "a\nb".to_string(),
    };
    assert_eq!(record.to_csv_line(), "1,3,2,\"a\nb\"\n");
}

#[test]
fn record_from_a_scan_renders_as_one_line() {
    let mut state = CrunchState::new();
    let mut line = None;
    for l in [
        "2024-01-01 10:00:00 UTC 12(23): statement: SELECT 1",
        "2024-01-01 10:00:01 UTC 12(23): duration: 1.234 ms",
    ] {
        let (next, rec) = state.process_line(l.to_string());
        state = next;
        if let Some(rec) = rec {
            line = Some(rec.to_csv_line());
        }
    }
    let expected = format!("23,1.234,{},SELECT 1\n", hash_query("SELECT 1"));
    assert_eq!(line.expect("one record expected"), expected);
}
