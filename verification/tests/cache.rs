use luban_gen::cache::{current_version, Cache};

#[test]
fn test_is_valid() {
    let mut cache = Cache::new();
    cache.set_entry("MyClass", "test.ts", "abc123");

    assert!(cache.is_valid("MyClass", "abc123"));
    assert!(!cache.is_valid("MyClass", "different"));
    assert!(!cache.is_valid("OtherClass", "abc123"));
}

#[test]
fn cache_read_after_write() {
    let mut cache = Cache::new();
    cache.set_entry("MyClass", "test.ts", "abc123");
    cache.set_entry("Other", "o.ts", "h1");
    cache.set_entry("MyClass", "moved.ts", "def456");
    let entry = cache.get_entry("MyClass").unwrap();
    assert_eq!(entry.source, "moved.ts");
    assert_eq!(entry.hash, "def456");
    assert_eq!(cache.get_entry("Other").unwrap().hash, "h1");
    assert!(cache.get_entry("Missing").is_none());
}

#[test]
fn cache_clear_and_version() {
    let mut cache = Cache::new();
    assert_eq!(cache.version, current_version());
    assert_eq!(current_version(), "0.1.0");
    cache.set_entry("A", "a.ts", "1");
    cache.clear();
    assert!(cache.get_entry("A").is_none());
    assert!(!cache.generated_at.is_empty());
}

#[test]
fn cache_of_other_version_is_dropped() {
    let mut old = Cache::new();
    old.version = "0.0.1".to_string();
    old.set_entry("A", "a.ts", "1");
    let fresh = Cache::from_loaded(old);
    assert_eq!(fresh.version, "0.1.0");
    assert!(fresh.get_entry("A").is_none());

    let mut same = Cache::new();
    same.set_entry("A", "a.ts", "1");
    let kept = Cache::from_loaded(same);
    assert_eq!(kept.get_entry("A").unwrap().source, "a.ts");
}
