use afltriage::marker::{marker_backtrace, marker_child_output};

const CO_START: &str = "----AFLTRIAGE_CHILD_OUTPUT_START----";
const CO_END: &str = "----AFLTRIAGE_CHILD_OUTPUT_END----";

#[test]
fn marker_tags_are_fixed() {
    let co = marker_child_output();
    assert_eq!(co.start, CO_START);
    assert_eq!(co.end, CO_END);
    assert!(co.gdb_start.contains(CO_START));
    assert!(co.gdb_start.contains("x.flush()"));
    let bt = marker_backtrace();
    assert_eq!(bt.start, "----AFLTRIAGE_BACKTRACE_START----");
    assert_eq!(bt.end, "----AFLTRIAGE_BACKTRACE_END----");
}

#[test]
fn extract_payload_between_tags() {
    let co = marker_child_output();
    let text = format!("noise\n{}\nhello\nworld\n{}\ntrailing", CO_START, CO_END);
    let got = co.extract(&text).unwrap();
    assert_eq!(got, "hello\nworld\n");
}

#[test]
fn extract_empty_payload_is_valid() {
    let co = marker_child_output();
    let text = format!("{}\n{}\n", CO_START, CO_END);
    let got = co.extract(&text).unwrap();
    assert_eq!(got, "");
}

#[test]
fn extract_missing_start_marker() {
    let co = marker_child_output();
    let text = format!("output only\n{}\n", CO_END);
    let err = co.extract(&text).unwrap_err();
    assert_eq!(err, format!("Could not find {}", CO_START));
}

#[test]
fn extract_missing_end_marker() {
    let co = marker_child_output();
    let text = format!("{}\npayload", CO_START);
    let err = co.extract(&text).unwrap_err();
    assert_eq!(err, format!("Could not find {}", CO_END));
}

#[test]
fn extract_out_of_order_markers() {
    let co = marker_child_output();
    let text = format!("{}{}", CO_END, CO_START);
    let err = co.extract(&text).unwrap_err();
    assert_eq!(err, "Start marker and end marker out-of-order");
}

#[test]
fn extract_is_idempotent_under_trailing_output() {
    let co = marker_child_output();
    let base = format!("{}\npayload line\n{}\n", CO_START, CO_END);
    let first = co.extract(&base).unwrap().to_string();
    let extended = format!("{}later chatter, no tags at all", base);
    let second = co.extract(&extended).unwrap().to_string();
    assert_eq!(first, second);
    assert_eq!(first, "payload line\n");
}

#[test]
fn extract_uses_first_occurrences() {
    let co = marker_child_output();
    let text = format!(
        "{}\nfirst\n{}\n{}\nsecond\n{}\n",
        CO_START, CO_END, CO_START, CO_END
    );
    let got = co.extract(&text).unwrap();
    assert_eq!(got, "first\n");
}
