use openspace_sync::storage::{
    add_skipped_file, clear_skipped_files, is_file_skipped, SkipCache, SkippedFile,
};

fn record(name: &str, size: i64, dev: &str) -> SkippedFile {
    SkippedFile::new(name.to_string(), size, dev.to_string())
}

#[test]
fn inserted_record_is_found() {
    let mut cache = SkipCache::new();
    assert!(!is_file_skipped(&cache, "a.insv", 10, "cam"));
    add_skipped_file(&mut cache, record("a.insv", 10, "cam"));
    assert!(is_file_skipped(&cache, "a.insv", 10, "cam"));
}

#[test]
fn key_must_match_exactly() {
    let mut cache = SkipCache::new();
    add_skipped_file(&mut cache, record("a.insv", 10, "cam"));
    assert!(!is_file_skipped(&cache, "a.insv", 11, "cam"));
    assert!(!is_file_skipped(&cache, "b.insv", 10, "cam"));
    assert!(!is_file_skipped(&cache, "a.insv", 10, "other"));
    assert!(!is_file_skipped(&cache, "A.insv", 10, "cam"));
}

#[test]
fn inserting_twice_keeps_one_record() {
    let mut cache = SkipCache::new();
    add_skipped_file(&mut cache, record("a.insv", 10, "cam"));
    add_skipped_file(&mut cache, record("a.insv", 10, "cam"));
    assert_eq!(cache.records().len(), 1);
    assert!(cache.contains("a.insv", 10, "cam"));
}

#[test]
fn clear_forgets_every_record() {
    let mut cache = SkipCache::new();
    add_skipped_file(&mut cache, record("a.insv", 10, "cam"));
    add_skipped_file(&mut cache, record("b.insv", 20, "cam"));
    clear_skipped_files(&mut cache);
    assert!(!is_file_skipped(&cache, "a.insv", 10, "cam"));
    assert!(!is_file_skipped(&cache, "b.insv", 20, "cam"));
    assert_eq!(cache.records().len(), 0);
}

#[test]
fn loaded_records_are_found() {
    let cache = SkipCache::from_records(vec![record("a.insv", 1, "cam"), record("a.insv", 1, "cam")]);
    assert!(cache.contains("a.insv", 1, "cam"));
    assert!(!cache.contains("a.insv", 2, "cam"));
}
