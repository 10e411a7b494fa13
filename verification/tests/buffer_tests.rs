use ralph::buffer::{merge_streams, OutputBuffer};

#[test]
fn buffer_joins_lines_with_newlines() {
    let mut buf = OutputBuffer::new();
    buf.push_line("first");
    buf.push_line("second");
    assert_eq!(buf.merged_text(), "first\nsecond\n");
}

#[test]
fn empty_buffer_has_empty_text() {
    let buf = OutputBuffer::new();
    assert_eq!(buf.merged_text(), "");
    assert!(!buf.contains_marker("DONE"));
}

#[test]
fn marker_within_one_line_is_found() {
    let mut buf = OutputBuffer::new();
    buf.push_line("working...");
    buf.push_line("now DONE at last");
    assert!(buf.contains_marker("DONE"));
}

#[test]
fn marker_split_across_lines_is_not_found() {
    // The merge-then-scan design inserts a newline after every observed
    // line, so a marker split across a line (or stream) boundary fails to
    // match even though each half was emitted.
    let mut buf = OutputBuffer::new();
    buf.push_line("DO");
    buf.push_line("NE");
    assert!(!buf.contains_marker("DONE"));
    assert!(buf.contains_marker("DO\nNE"));
}

#[test]
fn merge_keeps_every_line_from_both_streams() {
    let out_lines = vec!["out one".to_string(), "out two".to_string()];
    let err_lines = vec!["err one".to_string()];
    // stderr line observed between the two stdout lines
    let sched = vec![true, false, true];
    let buf = merge_streams(&out_lines, &err_lines, &sched);
    assert_eq!(buf.merged_text(), "out one\nerr one\nout two\n");
}

#[test]
fn merge_order_follows_observed_readiness() {
    let out_lines = vec!["o".to_string()];
    let err_lines = vec!["e1".to_string(), "e2".to_string()];
    let sched = vec![false, true, false];
    let buf = merge_streams(&out_lines, &err_lines, &sched);
    assert_eq!(buf.merged_text(), "e1\no\ne2\n");
}

#[test]
fn marker_on_stderr_stream_is_found() {
    let out_lines = vec!["ordinary output".to_string()];
    let err_lines = vec!["DONE".to_string()];
    let sched = vec![true, false];
    let buf = merge_streams(&out_lines, &err_lines, &sched);
    assert!(buf.contains_marker("DONE"));
}
