use service_launcher::output::{
    ProcessOutput, LINE_OVERHEAD_BYTES, MAX_LINE_LENGTH, MAX_OUTPUT_LINES, MAX_TOTAL_OUTPUT_BYTES,
};

const MARKER: &str = "...[truncated]";

#[test]
fn caps_have_their_values() {
    assert_eq!(MAX_OUTPUT_LINES, 1000);
    assert_eq!(MAX_LINE_LENGTH, 4096);
    assert_eq!(MAX_TOTAL_OUTPUT_BYTES, 2 * 1024 * 1024);
    assert_eq!(LINE_OVERHEAD_BYTES, 16);
}

#[test]
fn new_buffer_is_empty() {
    let buffer = ProcessOutput::new();
    assert!(buffer.is_empty());
    assert_eq!(buffer.len(), 0);
    assert_eq!(buffer.total_bytes(), 0);
}

#[test]
fn short_lines_are_stored_verbatim() {
    let mut buffer = ProcessOutput::new();
    buffer.push_line(7, "stdout".to_string(), "hello".to_string());
    assert_eq!(buffer.len(), 1);
    assert_eq!(
        buffer.lines()[0],
        (7, "stdout".to_string(), "hello".to_string())
    );
    assert_eq!(buffer.total_bytes(), 5 + 6 + 16);
}

#[test]
fn line_of_exactly_the_cap_is_stored_verbatim() {
    let mut buffer = ProcessOutput::new();
    let line = "x".repeat(4096);
    buffer.push_line(1, "stderr".to_string(), line.clone());
    assert_eq!(buffer.lines()[0].2, line);
    assert_eq!(buffer.total_bytes(), 4096 + 6 + 16);
}

#[test]
fn long_line_is_cut_and_marked() {
    let mut buffer = ProcessOutput::new();
    buffer.push_line(1, "stdout".to_string(), "a".repeat(5000));
    let expected = format!("{}{}", "a".repeat(4096), MARKER);
    assert_eq!(buffer.lines()[0].2, expected);
    assert_eq!(buffer.total_bytes(), 4096 + 14 + 6 + 16);
}

#[test]
fn line_one_byte_over_the_cap_is_cut() {
    let mut buffer = ProcessOutput::new();
    buffer.push_line(1, "stdout".to_string(), "b".repeat(4097));
    let expected = format!("{}{}", "b".repeat(4096), MARKER);
    assert_eq!(buffer.lines()[0].2, expected);
}

#[test]
fn long_line_is_cut_between_characters() {
    let mut buffer = ProcessOutput::new();
    // One byte, then characters of two bytes each: the cap falls inside one.
    let line = format!("a{}", "\u{e9}".repeat(2048));
    assert_eq!(line.len(), 4097);
    buffer.push_line(1, "stdout".to_string(), line);
    let expected = format!("a{}{}", "\u{e9}".repeat(2047), MARKER);
    assert_eq!(buffer.lines()[0].2, expected);
    assert_eq!(buffer.total_bytes(), 4095 + 14 + 6 + 16);
}

#[test]
fn long_line_of_wide_characters_is_cut_at_the_cap() {
    let mut buffer = ProcessOutput::new();
    let line = "\u{1F600}".repeat(1025);
    assert_eq!(line.len(), 4100);
    buffer.push_line(1, "stdout".to_string(), line);
    let expected = format!("{}{}", "\u{1F600}".repeat(1024), MARKER);
    assert_eq!(buffer.lines()[0].2, expected);
}

#[test]
fn oldest_line_leaves_when_the_line_cap_is_passed() {
    let mut buffer = ProcessOutput::new();
    for i in 0..1001 {
        buffer.push_line(i, "stdout".to_string(), format!("line {}", i));
    }
    assert_eq!(buffer.len(), 1000);
    assert_eq!(buffer.lines()[0].0, 1);
    assert_eq!(buffer.lines()[0].2, "line 1");
    assert_eq!(buffer.lines()[999].2, "line 1000");
}

#[test]
fn line_cap_holds_after_every_append() {
    let mut buffer = ProcessOutput::new();
    let mut expected_bytes = 0usize;
    for i in 0..2500i64 {
        let text = format!("{}", i);
        buffer.push_line(i, "stdout".to_string(), text);
        assert!(buffer.len() <= MAX_OUTPUT_LINES);
        assert!(buffer.total_bytes() <= MAX_TOTAL_OUTPUT_BYTES);
        let newest = buffer.lines()[buffer.len() - 1].0;
        assert_eq!(newest, i);
        let oldest = buffer.lines()[0].0;
        assert_eq!(oldest, if i < 1000 { 0 } else { i - 999 });
        expected_bytes = buffer
            .lines()
            .iter()
            .map(|l| l.1.len() + l.2.len() + 16)
            .sum();
        assert_eq!(buffer.total_bytes(), expected_bytes);
    }
    assert_eq!(buffer.len(), 1000);
    assert!(expected_bytes > 0);
}

#[test]
fn oldest_lines_leave_when_the_byte_cap_is_passed() {
    let mut buffer = ProcessOutput::new();
    // Each line counts 4096 + 6 + 16 = 4118 bytes; 509 of them fit in 2 MiB.
    for i in 0..600 {
        buffer.push_line(i, "stdout".to_string(), "z".repeat(4096));
        assert!(buffer.total_bytes() <= MAX_TOTAL_OUTPUT_BYTES);
    }
    assert_eq!(buffer.len(), 509);
    assert_eq!(buffer.total_bytes(), 509 * 4118);
    assert_eq!(buffer.lines()[0].0, 600 - 509);
    assert_eq!(buffer.lines()[508].0, 599);
}

#[test]
fn entry_that_alone_passes_the_byte_cap_is_not_kept() {
    let mut buffer = ProcessOutput::new();
    buffer.push_line(1, "stdout".to_string(), "kept until now".to_string());
    let huge_kind = "k".repeat(3 * 1024 * 1024);
    buffer.push_line(2, huge_kind, "text".to_string());
    assert!(buffer.is_empty());
    assert_eq!(buffer.total_bytes(), 0);
    buffer.push_line(3, "stdout".to_string(), "again".to_string());
    assert_eq!(buffer.len(), 1);
    assert_eq!(buffer.total_bytes(), 5 + 6 + 16);
}

#[test]
fn clear_empties_the_buffer() {
    let mut buffer = ProcessOutput::new();
    buffer.push_line(1, "stdout".to_string(), "one".to_string());
    buffer.push_line(2, "stderr".to_string(), "two".to_string());
    assert_eq!(buffer.len(), 2);
    buffer.clear();
    assert!(buffer.is_empty());
    assert_eq!(buffer.total_bytes(), 0);
}

#[test]
fn lines_keep_their_order() {
    let mut buffer = ProcessOutput::new();
    buffer.push_line(10, "stdout".to_string(), "first".to_string());
    buffer.push_line(5, "stderr".to_string(), "second".to_string());
    let lines = buffer.lines();
    assert_eq!(lines[0], (10, "stdout".to_string(), "first".to_string()));
    assert_eq!(lines[1], (5, "stderr".to_string(), "second".to_string()));
}
