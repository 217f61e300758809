use selected_text::swap::{
    conclude_clipboard_read, normalize_automation_output, trim_whitespace, AutomationOutput,
    ClipboardSnapshot,
};

#[test]
fn unmoved_counter_yields_empty_string_not_absence() {
    let snapshot = ClipboardSnapshot { contents: "kept".to_string(), change_count: 7 };
    let outcome = conclude_clipboard_read(&snapshot, 7, &"stale".to_string());
    assert_eq!(outcome.captured, "");
    // The user's original clipboard contents remain installed afterwards.
    assert_eq!(outcome.restore, "kept");
}

#[test]
fn advanced_counter_captures_fresh_contents() {
    let snapshot = ClipboardSnapshot { contents: "kept".to_string(), change_count: 7 };
    let outcome = conclude_clipboard_read(&snapshot, 9, &"fresh".to_string());
    assert_eq!(outcome.captured, "fresh");
    assert_eq!(outcome.restore, "kept");
}

#[test]
fn launch_failure_stays_absence() {
    assert_eq!(normalize_automation_output(None), None);
}

#[test]
fn failing_exit_status_counts_as_empty_result() {
    let out = AutomationOutput { exit_success: false, stdout_text: "noise".to_string() };
    assert_eq!(normalize_automation_output(Some(out)), Some(String::new()));
}

#[test]
fn successful_run_is_trimmed() {
    let out = AutomationOutput { exit_success: true, stdout_text: "  hello \n".to_string() };
    assert_eq!(normalize_automation_output(Some(out)), Some("hello".to_string()));
}

#[test]
fn blank_output_trims_to_empty_result() {
    let out = AutomationOutput { exit_success: true, stdout_text: " \t\r\n".to_string() };
    assert_eq!(normalize_automation_output(Some(out)), Some(String::new()));
}

#[test]
fn trim_keeps_inner_whitespace() {
    assert_eq!(trim_whitespace("\n a b\tc \r\n"), "a b\tc");
    assert_eq!(trim_whitespace(""), "");
    assert_eq!(trim_whitespace("plain"), "plain");
}

#[test]
fn unicode_whitespace_is_trimmed() {
    let out = AutomationOutput {
        exit_success: true,
        stdout_text: "\u{0C}hello\u{A0}".to_string(),
    };
    assert_eq!(normalize_automation_output(Some(out)), Some("hello".to_string()));
    assert_eq!(trim_whitespace("\u{2028}\u{3000} mixed \u{85}\u{200A}"), "mixed");
}

#[test]
fn whitespace_only_output_is_an_empty_result() {
    let out = AutomationOutput { exit_success: true, stdout_text: "\u{A0}\u{2009}".to_string() };
    assert_eq!(normalize_automation_output(Some(out)), Some(String::new()));
}

#[test]
fn trim_matches_the_standard_trim() {
    for raw in ["\u{0C} a\u{B}b \u{A0}", "\u{1680}x\u{2007}", " plain ", "", "\u{85}"] {
        assert_eq!(trim_whitespace(raw), raw.trim());
    }
}
