use chrono::NaiveDateTime;
use linkly::cache::LinkCache;
use linkly::db::warm_cache;
use linkly::models::Link;
use linkly::redirect::{resolve, resolve_from_storage, Resolution, ResolveStep, StorageLookup};

fn link(id: i64, code: &str, url: &str, active: bool) -> Link {
    Link {
        id,
        short_code: code.to_string(),
        original_url: url.to_string(),
        title: None,
        description: None,
        created_at: NaiveDateTime::default(),
        is_active: active,
    }
}

#[test]
fn cache_starts_empty() {
    let cache = LinkCache::new();
    assert!(cache.is_empty());
    assert_eq!(cache.len(), 0);
    assert_eq!(cache.get("abc1234"), None);
}

#[test]
fn default_cache_is_empty() {
    let cache = LinkCache::default();
    assert!(cache.is_empty());
}

#[test]
fn set_then_get_returns_the_url() {
    let mut cache = LinkCache::new();
    cache.set("abc1234", "https://example.com/page");
    assert_eq!(cache.get("abc1234"), Some("https://example.com/page".to_string()));
    assert_eq!(cache.len(), 1);
    assert!(!cache.is_empty());
}

#[test]
fn set_overwrites_an_entry() {
    let mut cache = LinkCache::new();
    cache.set("abc1234", "https://example.com/old");
    cache.set("abc1234", "https://example.com/new");
    assert_eq!(cache.get("abc1234"), Some("https://example.com/new".to_string()));
    assert_eq!(cache.len(), 1);
}

#[test]
fn remove_deletes_only_that_key() {
    let mut cache = LinkCache::new();
    cache.set("one", "https://example.com/1");
    cache.set("two", "https://example.com/2");
    cache.remove("one");
    assert_eq!(cache.get("one"), None);
    assert_eq!(cache.get("two"), Some("https://example.com/2".to_string()));
    assert_eq!(cache.len(), 1);
}

#[test]
fn remove_of_an_absent_key_changes_nothing() {
    let mut cache = LinkCache::new();
    cache.set("one", "https://example.com/1");
    cache.remove("zzz9999");
    assert_eq!(cache.len(), 1);
    assert_eq!(cache.get("one"), Some("https://example.com/1".to_string()));
}

#[test]
fn keys_are_case_sensitive() {
    let mut cache = LinkCache::new();
    cache.set("Abc", "https://example.com/upper");
    assert_eq!(cache.get("abc"), None);
}

#[test]
fn cached_code_resolves_without_storage() {
    let mut cache = LinkCache::new();
    cache.set("abc1234", "https://example.com/page");
    match resolve("abc1234", &cache) {
        ResolveStep::Hit(url) => assert_eq!(url, "https://example.com/page"),
        ResolveStep::AskStorage => panic!("storage was asked for a cached code"),
    }
}

#[test]
fn uncached_code_asks_storage() {
    let cache = LinkCache::new();
    assert!(matches!(resolve("zzz9999", &cache), ResolveStep::AskStorage));
}

#[test]
fn stored_code_is_backfilled() {
    let mut cache = LinkCache::new();
    assert!(matches!(resolve("zzz9999", &cache), ResolveStep::AskStorage));
    let answer = StorageLookup::Found(link(7, "zzz9999", "https://example.org/stored", true));
    match resolve_from_storage(&answer, &mut cache) {
        Resolution::Destination(url) => assert_eq!(url, "https://example.org/stored"),
        other => panic!("unexpected resolution {:?}", other),
    }
    match resolve("zzz9999", &cache) {
        ResolveStep::Hit(url) => assert_eq!(url, "https://example.org/stored"),
        ResolveStep::AskStorage => panic!("storage was asked a second time"),
    }
}

#[test]
fn unknown_code_is_not_found_and_leaves_no_entry() {
    let mut cache = LinkCache::new();
    let r = resolve_from_storage(&StorageLookup::Missing, &mut cache);
    assert!(matches!(r, Resolution::NotFound));
    assert_eq!(cache.get("nothere"), None);
    assert!(cache.is_empty());
}

#[test]
fn storage_failure_is_an_error_and_leaves_no_entry() {
    let mut cache = LinkCache::new();
    cache.set("kept", "https://example.com/kept");
    let r = resolve_from_storage(&StorageLookup::Failed, &mut cache);
    assert!(matches!(r, Resolution::StorageError));
    assert_eq!(cache.len(), 1);
}

#[test]
fn warm_cache_enters_active_links() {
    let mut cache = LinkCache::new();
    let links = vec![
        link(1, "aaa", "https://example.com/a", true),
        link(2, "bbb", "https://example.com/b", false),
        link(3, "ccc", "https://example.com/c", true),
    ];
    let count = warm_cache(&links, &mut cache);
    assert_eq!(count, 2);
    assert_eq!(cache.len(), 2);
    assert_eq!(cache.get("aaa"), Some("https://example.com/a".to_string()));
    assert_eq!(cache.get("bbb"), None);
    assert_eq!(cache.get("ccc"), Some("https://example.com/c".to_string()));
}

#[test]
fn warm_cache_of_nothing_changes_nothing() {
    let mut cache = LinkCache::new();
    cache.set("kept", "https://example.com/kept");
    assert_eq!(warm_cache(&Vec::new(), &mut cache), 0);
    assert_eq!(cache.len(), 1);
}

#[test]
fn later_link_of_a_code_wins_on_warming() {
    let mut cache = LinkCache::new();
    let links = vec![
        link(1, "aaa", "https://example.com/first", true),
        link(2, "aaa", "https://example.com/second", true),
    ];
    assert_eq!(warm_cache(&links, &mut cache), 2);
    assert_eq!(cache.get("aaa"), Some("https://example.com/second".to_string()));
}

#[test]
fn a_cloned_link_keeps_its_fields() {
    let l = link(9, "xyz", "https://example.com/x", true);
    let c = l.clone();
    assert_eq!(c.id, 9);
    assert_eq!(c.short_code, "xyz");
    assert_eq!(c.created_at, l.created_at);
}

#[test]
fn resolutions_have_their_responses() {
    let found = Resolution::Destination("https://example.com/page".to_string());
    assert_eq!(found.status(), 302);
    assert_eq!(found.message(), None);
    assert!(found.logs_click());
    assert_eq!(Resolution::NotFound.status(), 404);
    assert_eq!(Resolution::NotFound.message(), Some("Short link not found".to_string()));
    assert!(!Resolution::NotFound.logs_click());
    assert_eq!(Resolution::StorageError.status(), 500);
    assert_eq!(Resolution::StorageError.message(), Some("Internal error".to_string()));
    assert!(!Resolution::StorageError.logs_click());
}
