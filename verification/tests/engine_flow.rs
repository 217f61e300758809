use selected_text::cache::StrategyVerdict;
use selected_text::engine::{Action, SelectionEngine, SourceKind, StepKind};

fn engine() -> SelectionEngine {
    SelectionEngine::new("Finder".to_string())
}

fn expect_finished(action: Action) -> Option<selected_text::engine::SelectionResult> {
    match action {
        Action::Finish(r) => r,
        other => panic!("expected the retrieval to finish, got {other:?}"),
    }
}

#[test]
fn probe_success_end_to_end() {
    let mut e = engine();
    let action = e.begin("Editor".to_string());
    assert!(matches!(action, Action::ProbeAccessibility));
    let action = e.on_probe(Some("hello".to_string()));
    let res = expect_finished(action).expect("a result");
    assert_eq!(res.source_kind, SourceKind::Text);
    assert_eq!(res.application_id, "Editor");
    assert_eq!(res.items, vec!["hello".to_string()]);
    assert_eq!(
        e.cached_strategy(&"Editor".to_string()),
        Some(StrategyVerdict::AccessibilitySucceeded)
    );
}

#[test]
fn clipboard_fallback_end_to_end() {
    let mut e = engine();
    let action = e.begin("Terminal".to_string());
    assert!(matches!(action, Action::ProbeAccessibility));
    let action = e.on_probe(None);
    assert!(matches!(action, Action::SwapClipboard));
    let action = e.on_swap(Some("world".to_string()));
    let res = expect_finished(action).expect("a result");
    assert_eq!(res.source_kind, SourceKind::Text);
    assert_eq!(res.application_id, "Terminal");
    assert_eq!(res.items, vec!["world".to_string()]);
    assert_eq!(
        e.cached_strategy(&"Terminal".to_string()),
        Some(StrategyVerdict::AccessibilityFailed)
    );
}

#[test]
fn total_failure_records_no_verdict() {
    let mut e = engine();
    let action = e.begin("Blank".to_string());
    assert!(matches!(action, Action::ProbeAccessibility));
    let action = e.on_probe(Some(String::new()));
    assert!(matches!(action, Action::SwapClipboard));
    let action = e.on_swap(Some(String::new()));
    assert!(expect_finished(action).is_none());
    assert_eq!(e.cached_strategy(&"Blank".to_string()), None);
}

#[test]
fn launch_failure_everywhere_is_absence() {
    let mut e = engine();
    e.begin("Shell".to_string());
    let action = e.on_probe(None);
    assert!(matches!(action, Action::SwapClipboard));
    let action = e.on_swap(None);
    assert!(expect_finished(action).is_none());
    assert_eq!(e.cached_strategy(&"Shell".to_string()), None);
}

#[test]
fn file_manager_context_fetches_paths_first() {
    let mut e = engine();
    let action = e.begin("Finder".to_string());
    assert!(matches!(action, Action::FetchFilePaths));
    let action = e.on_file_paths(Some("'/a/b' '/c d/e'".to_string()));
    let res = expect_finished(action).expect("a result");
    assert_eq!(res.source_kind, SourceKind::FilePaths);
    assert_eq!(res.application_id, "Finder");
    assert_eq!(res.items, vec!["'/a/b'".to_string(), "'/c d/e'".to_string()]);
}

#[test]
fn empty_application_id_fetches_paths_first() {
    let mut e = engine();
    let action = e.begin(String::new());
    assert!(matches!(action, Action::FetchFilePaths));
}

#[test]
fn failed_path_fetch_falls_through_to_text() {
    let mut e = engine();
    let action = e.begin(String::new());
    assert!(matches!(action, Action::FetchFilePaths));
    let action = e.on_file_paths(None);
    assert!(matches!(action, Action::ProbeAccessibility));
    let action = e.on_probe(Some("note".to_string()));
    let res = expect_finished(action).expect("a result");
    assert_eq!(res.source_kind, SourceKind::Text);
    assert_eq!(res.application_id, "");
    assert_eq!(res.items, vec!["note".to_string()]);
}

#[test]
fn second_call_reprobes_after_probe_success() {
    let mut e = engine();
    e.begin("Foo".to_string());
    e.on_probe(Some("first".to_string()));
    // The second retrieval for "Foo" probes again; the swap is reached only
    // if that probe yields nothing.
    let action = e.begin("Foo".to_string());
    assert!(matches!(action, Action::ProbeAccessibility));
    let action = e.on_probe(Some("second".to_string()));
    let res = expect_finished(action).expect("a result");
    assert_eq!(res.items, vec!["second".to_string()]);
}

#[test]
fn second_call_reprobes_after_clipboard_success() {
    let mut e = engine();
    e.begin("Bar".to_string());
    e.on_probe(None);
    e.on_swap(Some("pasted".to_string()));
    assert_eq!(
        e.cached_strategy(&"Bar".to_string()),
        Some(StrategyVerdict::AccessibilityFailed)
    );
    // The second retrieval re-tries the probe once before falling back.
    let action = e.begin("Bar".to_string());
    assert!(matches!(action, Action::ProbeAccessibility));
    let action = e.on_probe(Some(String::new()));
    assert!(matches!(action, Action::SwapClipboard));
}

#[test]
fn hit_path_empty_swap_is_still_a_result() {
    let mut e = engine();
    e.begin("Term".to_string());
    e.on_probe(None);
    e.on_swap(Some("text".to_string()));
    // Second retrieval: probe fails again, the swap runs and finds nothing;
    // after a cache hit that is an empty result, not absence, and the cache
    // is not re-updated.
    e.begin("Term".to_string());
    e.on_probe(None);
    let action = e.on_swap(Some(String::new()));
    let res = expect_finished(action).expect("an empty result, not absence");
    assert_eq!(res.items, vec![String::new()]);
    assert_eq!(
        e.cached_strategy(&"Term".to_string()),
        Some(StrategyVerdict::AccessibilityFailed)
    );
}

#[test]
fn step_kinds_follow_the_protocol() {
    let mut e = engine();
    assert_eq!(e.current_step(), StepKind::Idle);
    e.begin("App".to_string());
    assert_eq!(e.current_step(), StepKind::AwaitingProbe);
    e.on_probe(None);
    assert_eq!(e.current_step(), StepKind::AwaitingSwap);
    e.on_swap(None);
    assert_eq!(e.current_step(), StepKind::Idle);
    e.begin("Finder".to_string());
    assert_eq!(e.current_step(), StepKind::AwaitingFilePaths);
}

#[test]
fn tunables_are_exposed() {
    let e = engine();
    assert_eq!(e.settle_delay_ms(), 100);
    let e = SelectionEngine::with_tuning("Files".to_string(), 5, 250);
    assert_eq!(e.settle_delay_ms(), 250);
}

#[test]
fn pending_application_id_tracks_the_retrieval() {
    let mut e = engine();
    assert_eq!(e.pending_application_id(), None);
    e.begin("App".to_string());
    assert_eq!(e.pending_application_id(), Some(&"App".to_string()));
    e.on_probe(None);
    assert_eq!(e.pending_application_id(), Some(&"App".to_string()));
    e.on_swap(None);
    assert_eq!(e.pending_application_id(), None);
}
