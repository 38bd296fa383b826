use service_launcher::normalize::{step, strip_control_sequences, ScanState};

#[test]
fn plain_text_is_kept() {
    assert_eq!(strip_control_sequences("hello world"), "hello world");
    assert_eq!(strip_control_sequences(""), "");
    assert_eq!(strip_control_sequences("tab\tand [brackets]"), "tab\tand [brackets]");
}

#[test]
fn color_codes_are_removed() {
    assert_eq!(strip_control_sequences("\u{1b}[31mred\u{1b}[0m"), "red");
    assert_eq!(
        strip_control_sequences("a\u{1b}[1;32mb\u{1b}[39;49mc"),
        "abc"
    );
}

#[test]
fn cursor_movement_is_removed() {
    assert_eq!(strip_control_sequences("\u{1b}[2J\u{1b}[Hready"), "ready");
    assert_eq!(strip_control_sequences("50%\u{1b}[3D75%"), "50%75%");
    assert_eq!(strip_control_sequences("\u{1b}[?25lhidden"), "hidden");
}

#[test]
fn title_sequences_are_removed() {
    assert_eq!(
        strip_control_sequences("\u{1b}]0;my title\u{7}prompt"),
        "prompt"
    );
    assert_eq!(
        strip_control_sequences("\u{1b}]2;other\u{1b}\\prompt"),
        "prompt"
    );
}

#[test]
fn unfinished_sequences_are_dropped() {
    assert_eq!(strip_control_sequences("text\u{1b}"), "text");
    assert_eq!(strip_control_sequences("text\u{1b}[12"), "text");
    assert_eq!(strip_control_sequences("text\u{1b}]0;title"), "text");
}

#[test]
fn other_escapes_lose_one_character() {
    assert_eq!(strip_control_sequences("a\u{1b}cb"), "ab");
    assert_eq!(strip_control_sequences("a\u{1b}7b\u{1b}8c"), "abc");
}

#[test]
fn control_sequence_broken_by_other_text_keeps_the_text() {
    assert_eq!(strip_control_sequences("\u{1b}[12\u{e9}t"), "\u{e9}t");
    assert_eq!(strip_control_sequences("\u{1b}[1\u{1b}[0mx"), "x");
}

#[test]
fn non_ascii_text_is_kept() {
    assert_eq!(
        strip_control_sequences("\u{1b}[32m\u{4f60}\u{597d}\u{1b}[0m \u{1F600}"),
        "\u{4f60}\u{597d} \u{1F600}"
    );
}

#[test]
fn stripping_twice_changes_nothing_more() {
    let once = strip_control_sequences("x\u{1b}[1mbold\u{1b}]0;t\u{7}y\u{1b}");
    assert_eq!(once, "xboldy");
    assert_eq!(strip_control_sequences(&once), once);
}

#[test]
fn steps_follow_the_table() {
    assert_eq!(step(ScanState::Text, 'a'), (ScanState::Text, true));
    assert_eq!(step(ScanState::Text, '\u{1b}'), (ScanState::Escape, false));
    assert_eq!(step(ScanState::Escape, '['), (ScanState::Control, false));
    assert_eq!(step(ScanState::Escape, ']'), (ScanState::Command, false));
    assert_eq!(step(ScanState::Escape, 'c'), (ScanState::Text, false));
    assert_eq!(step(ScanState::Control, '3'), (ScanState::Control, false));
    assert_eq!(step(ScanState::Control, ';'), (ScanState::Control, false));
    assert_eq!(step(ScanState::Control, 'm'), (ScanState::Text, false));
    assert_eq!(step(ScanState::Command, 'x'), (ScanState::Command, false));
    assert_eq!(step(ScanState::Command, '\u{7}'), (ScanState::Text, false));
    assert_eq!(
        step(ScanState::Command, '\u{1b}'),
        (ScanState::CommandEscape, false)
    );
    assert_eq!(step(ScanState::CommandEscape, '\\'), (ScanState::Text, false));
    assert_eq!(step(ScanState::CommandEscape, 'x'), (ScanState::Command, false));
}
