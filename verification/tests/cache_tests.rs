use ogito::file::cache::{plan_fetch, CacheConfig, CacheMetadata, FetchPlan};

#[test]
fn cache_paths_depend_on_the_key_alone() {
    let meta = CacheMetadata::new("owner", "repo", "abcdef0123");
    let first = CacheConfig::new("/cache", &meta);
    let second = CacheConfig::new("/cache", &meta);
    assert_eq!(first.archive_path, second.archive_path);
    assert_eq!(
        first.cache_hash_path,
        "/cache/.ogito/cache/owner/repo/ab/cdef0123"
    );
    assert_eq!(
        first.archive_path,
        "/cache/.ogito/cache/owner/repo/ab/cdef0123/archive.tar.gz"
    );
}

#[test]
fn populated_keys_are_answered_from_the_cache() {
    assert_eq!(plan_fetch(true), FetchPlan::UseCache);
    assert_eq!(plan_fetch(false), FetchPlan::Download);
}
