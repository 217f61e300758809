use selected_text::cache::{StrategyCache, StrategyVerdict};

#[test]
fn lookup_miss_is_none() {
    let mut cache = StrategyCache::new(100);
    assert_eq!(cache.lookup(&"Foo".to_string()), None);
}

#[test]
fn recorded_verdict_is_found() {
    let mut cache = StrategyCache::new(100);
    cache.record("Foo".to_string(), StrategyVerdict::AccessibilitySucceeded);
    assert_eq!(
        cache.lookup(&"Foo".to_string()),
        Some(StrategyVerdict::AccessibilitySucceeded)
    );
}

#[test]
fn re_recording_updates_the_verdict() {
    let mut cache = StrategyCache::new(100);
    cache.record("Foo".to_string(), StrategyVerdict::AccessibilityFailed);
    cache.record("Foo".to_string(), StrategyVerdict::AccessibilitySucceeded);
    assert_eq!(
        cache.lookup(&"Foo".to_string()),
        Some(StrategyVerdict::AccessibilitySucceeded)
    );
}

#[test]
fn more_than_hundred_entries_evict_least_recently_used() {
    let mut cache = StrategyCache::new(100);
    for i in 0..101 {
        cache.record(format!("app-{i}"), StrategyVerdict::AccessibilitySucceeded);
    }
    // The first-inserted application became the least recently used and is gone.
    assert_eq!(cache.lookup(&"app-0".to_string()), None);
    // Every later one is still present.
    for i in 1..101 {
        assert!(cache.lookup(&format!("app-{i}")).is_some());
    }
}

#[test]
fn querying_counts_as_a_use_for_recency() {
    let mut cache = StrategyCache::new(2);
    cache.record("first".to_string(), StrategyVerdict::AccessibilitySucceeded);
    cache.record("second".to_string(), StrategyVerdict::AccessibilityFailed);
    // Touch "first": "second" becomes the least recently used entry.
    assert!(cache.lookup(&"first".to_string()).is_some());
    cache.record("third".to_string(), StrategyVerdict::AccessibilitySucceeded);
    assert_eq!(cache.lookup(&"second".to_string()), None);
    assert!(cache.lookup(&"first".to_string()).is_some());
    assert!(cache.lookup(&"third".to_string()).is_some());
}

#[test]
fn updating_an_existing_key_evicts_nothing() {
    let mut cache = StrategyCache::new(2);
    cache.record("a".to_string(), StrategyVerdict::AccessibilitySucceeded);
    cache.record("b".to_string(), StrategyVerdict::AccessibilitySucceeded);
    cache.record("a".to_string(), StrategyVerdict::AccessibilityFailed);
    assert!(cache.lookup(&"b".to_string()).is_some());
    assert_eq!(cache.lookup(&"a".to_string()), Some(StrategyVerdict::AccessibilityFailed));
}
