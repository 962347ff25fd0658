use queue_rs::record::{encode_record, parse_record};

#[test]
fn encode_writes_ttr_separator_payload() {
    assert_eq!(encode_record(5, "payload"), "5;payload");
    assert_eq!(encode_record(300, "{\"type\":\"TestJob\"}"), "300;{\"type\":\"TestJob\"}");
}

#[test]
fn encode_writes_zero_and_the_largest_ttr() {
    assert_eq!(encode_record(0, ""), "0;");
    assert_eq!(encode_record(u32::MAX, "x"), "4294967295;x");
    assert_eq!(encode_record(10, "x"), "10;x");
    assert_eq!(encode_record(1009, "x"), "1009;x");
}

#[test]
fn parse_reads_ttr_and_payload() {
    assert_eq!(parse_record("5;payload"), Some((5, "payload".to_string())));
    assert_eq!(parse_record("300;"), Some((300, String::new())));
}

#[test]
fn parse_splits_at_the_first_separator_only() {
    assert_eq!(parse_record("5;a;b;c"), Some((5, "a;b;c".to_string())));
    assert_eq!(parse_record("7;;"), Some((7, ";".to_string())));
}

#[test]
fn parse_accepts_a_leading_plus_and_leading_zeros() {
    assert_eq!(parse_record("+5;x"), Some((5, "x".to_string())));
    assert_eq!(parse_record("005;x"), Some((5, "x".to_string())));
}

#[test]
fn parse_reads_the_largest_ttr_and_refuses_the_next() {
    assert_eq!(parse_record("4294967295;x"), Some((u32::MAX, "x".to_string())));
    assert_eq!(parse_record("4294967296;x"), None);
    assert_eq!(parse_record("4294967300;x"), None);
    assert_eq!(parse_record("99999999999999999999;x"), None);
}

#[test]
fn parse_refuses_a_prefix_that_is_no_number() {
    assert_eq!(parse_record("abc;x"), None);
    assert_eq!(parse_record("5x;y"), None);
    assert_eq!(parse_record("-5;y"), None);
    assert_eq!(parse_record(" 5;y"), None);
    assert_eq!(parse_record("+;y"), None);
    assert_eq!(parse_record("5+;y"), None);
    assert_eq!(parse_record(";y"), None);
}

#[test]
fn parse_refuses_a_record_without_separator() {
    assert_eq!(parse_record(""), None);
    assert_eq!(parse_record("5"), None);
    assert_eq!(parse_record("+"), None);
    assert_eq!(parse_record("payload"), None);
}

#[test]
fn parse_keeps_text_beyond_ascii() {
    assert_eq!(parse_record("12;größe;√"), Some((12, "größe;√".to_string())));
}

#[test]
fn a_record_is_read_back_as_written() {
    let ttrs: [u32; 6] = [0, 1, 9, 10, 4096, u32::MAX];
    for ttr in ttrs {
        for payload in ["", "x", ";", "1;2", "{\"type\":\"TestJob\",\"title\":\"first job\"}"] {
            let record = encode_record(ttr, payload);
            assert_eq!(parse_record(&record), Some((ttr, payload.to_string())));
        }
    }
}
