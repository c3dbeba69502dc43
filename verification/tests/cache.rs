use rurt::cache::Cache;

#[test]
fn first_compute_starts_the_computation() {
    let mut cache: Cache<String> = Cache::new();
    let answer = cache.compute(b"/a");
    assert!(answer.start);
    assert!(answer.value.is_none());
    assert!(cache.is_pending(b"/a"));
}

#[test]
fn compute_again_starts_nothing() {
    let mut cache: Cache<String> = Cache::default();
    assert!(cache.compute(b"/a").start);
    for _ in 0..10 {
        let answer = cache.compute(b"/a");
        assert!(!answer.start);
        assert!(answer.value.is_none());
    }
    assert!(cache.compute(b"/b").start);
    assert!(!cache.compute(b"/a").start);
}

#[test]
fn result_is_seen_by_everyone_afterwards() {
    let mut cache: Cache<String> = Cache::new();
    cache.compute(b"/a");
    assert_eq!(cache.get(b"/a"), None);
    cache.complete(b"/a", Some("summary".to_string()));
    assert!(!cache.is_pending(b"/a"));
    assert_eq!(cache.get(b"/a"), Some(&"summary".to_string()));
    let answer = cache.compute(b"/a");
    assert!(!answer.start);
    assert_eq!(answer.value, Some(&"summary".to_string()));
}

#[test]
fn failure_is_kept_and_not_tried_again() {
    let mut cache: Cache<u32> = Cache::new();
    cache.compute(b"/a");
    cache.complete(b"/a", None);
    assert!(!cache.is_pending(b"/a"));
    assert_eq!(cache.get(b"/a"), None);
    let answer = cache.compute(b"/a");
    assert!(!answer.start);
    assert!(answer.value.is_none());
    // a late result does not replace what is known
    cache.complete(b"/a", Some(7));
    assert_eq!(cache.get(b"/a"), None);
}

#[test]
fn first_result_wins() {
    let mut cache: Cache<u32> = Cache::new();
    cache.compute(b"/a");
    cache.complete(b"/a", Some(1));
    cache.complete(b"/a", Some(2));
    assert_eq!(cache.get(b"/a"), Some(&1));
}

#[test]
fn result_for_a_key_never_asked_for_is_dropped() {
    let mut cache: Cache<u32> = Cache::new();
    cache.complete(b"/a", Some(1));
    assert_eq!(cache.get(b"/a"), None);
    assert!(!cache.is_pending(b"/a"));
    assert!(cache.compute(b"/a").start);
}

#[test]
fn get_starts_nothing() {
    let mut cache: Cache<u32> = Cache::new();
    assert_eq!(cache.get(b"/a"), None);
    assert!(!cache.is_pending(b"/a"));
    assert!(cache.compute(b"/a").start);
}

#[test]
fn keys_are_kept_apart() {
    let mut cache: Cache<u32> = Cache::new();
    cache.compute(b"/a");
    cache.compute(b"/ab");
    cache.compute(b"");
    cache.complete(b"/ab", Some(2));
    cache.complete(b"", Some(0));
    assert_eq!(cache.get(b"/a"), None);
    assert!(cache.is_pending(b"/a"));
    assert_eq!(cache.get(b"/ab"), Some(&2));
    assert_eq!(cache.get(b""), Some(&0));
}
