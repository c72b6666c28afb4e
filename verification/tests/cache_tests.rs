use model_pipeline::cache::{cache_key, AssetCache};

fn key_string(locator: &str) -> String {
    cache_key(locator).into_iter().collect()
}

#[test]
fn cache_key_strips_non_alphanumerics() {
    assert_eq!(key_string("https://i.imgur.com/40VzkBZ.jpg"), "httpsiimgurcom40VzkBZjpg");
}

#[test]
fn cache_key_keeps_unicode_letters() {
    assert_eq!(key_string("h\u{e9}llo w\u{f6}rld-42"), "h\u{e9}llow\u{f6}rld42");
}

#[test]
fn cache_key_of_empty_locator_is_empty() {
    assert_eq!(key_string(""), "");
}

fn fetch(cache: &mut AssetCache, url: &str, payload: &[u8], network_calls: &mut usize) -> Vec<u8> {
    if cache.needs_fetch(url) {
        *network_calls += 1;
        cache.store(url, payload.to_vec());
    }
    cache.lookup(url).unwrap()
}

#[test]
fn idempotent_cache() {
    let mut cache = AssetCache::new();
    let mut network_calls: usize = 0;
    let url = "https://example.test/model.zip";
    let first = fetch(&mut cache, url, &[1, 2, 3, 4], &mut network_calls);
    let second = fetch(&mut cache, url, &[1, 2, 3, 4], &mut network_calls);
    assert_eq!(network_calls, 1);
    assert_eq!(first, second);
    assert_eq!(first, vec![1, 2, 3, 4]);
}

#[test]
fn distinct_locators_fetch_separately() {
    let mut cache = AssetCache::new();
    let mut network_calls: usize = 0;
    fetch(&mut cache, "https://example.test/a", &[1], &mut network_calls);
    fetch(&mut cache, "https://example.test/b", &[2], &mut network_calls);
    assert_eq!(network_calls, 2);
    assert_eq!(cache.lookup("https://example.test/a").unwrap(), vec![1]);
    assert_eq!(cache.lookup("https://example.test/b").unwrap(), vec![2]);
}

#[test]
fn store_is_append_only() {
    let mut cache = AssetCache::new();
    cache.store("k", vec![1]);
    cache.store("k", vec![2]);
    assert_eq!(cache.lookup("k").unwrap(), vec![1]);
}

#[test]
fn colliding_locators_reduce_to_one_key() {
    let mut cache = AssetCache::new();
    cache.store("a/b", vec![9]);
    assert!(!cache.needs_fetch("a.b"));
    assert_eq!(cache.lookup("ab").unwrap(), vec![9]);
}

#[test]
fn lookup_of_unknown_locator_is_none() {
    let cache = AssetCache::new();
    assert!(cache.lookup("https://example.test/missing").is_none());
    assert!(cache.needs_fetch("https://example.test/missing"));
}
