use framesense::cache::ScreenshotCache;
use framesense::geometry::CaptureBounds;

fn rect(x: i32, y: i32, width: u32, height: u32) -> CaptureBounds {
    CaptureBounds { x, y, width, height }
}

const TTL_MS: u64 = 30 * 1000;
const MAX_BYTES: usize = 50 * 1024 * 1024;

#[test]
fn fresh_cache_starts_empty() {
    let cache = ScreenshotCache::new();
    assert_eq!(cache.get_cache_stats(0), (0, 0, 0));
}

/// Two consecutive requests for the same rectangle inside the TTL: the
/// second is answered from the cache, byte-identical, with exactly one
/// capture performed.
#[test]
fn second_request_within_ttl_hits_the_cache() {
    let mut cache = ScreenshotCache::new();
    let key = rect(10, 20, 300, 200);
    let mut captures: usize = 0;

    // First request: probe misses, one capture runs, its payload is stored.
    let first = match cache.get_fresh(&key, 1_000) {
        Some(p) => p,
        None => {
            captures += 1;
            let payload = String::from("data:image/png;base64,AAAA");
            cache.add_capture(key, payload.clone(), 1_000);
            payload
        }
    };

    // Second request two seconds later: exact hit, no new capture.
    let second = match cache.get_fresh(&key, 3_000) {
        Some(p) => p,
        None => {
            captures += 1;
            let payload = String::from("data:image/png;base64,BBBB");
            cache.add_capture(key, payload.clone(), 3_000);
            payload
        }
    };

    assert_eq!(captures, 1);
    assert_eq!(first, second);
    assert_eq!(cache.get_cache_stats(3_000).0, 1);
}

/// A request after the TTL has elapsed finds nothing: the stale entry is
/// dropped and exactly one new capture runs.
#[test]
fn request_after_ttl_captures_anew() {
    let mut cache = ScreenshotCache::new();
    let key = rect(10, 20, 300, 200);
    cache.add_capture(key, String::from("payload-one"), 1_000);

    // Within the window it is still served.
    assert_eq!(cache.get_fresh(&key, 1_000 + TTL_MS - 1), Some(String::from("payload-one")));

    // Once the TTL has elapsed the entry is gone and a capture must run.
    let mut captures: usize = 0;
    let expired_at = 1_000 + TTL_MS;
    let refreshed = match cache.get_fresh(&key, expired_at) {
        Some(p) => p,
        None => {
            captures += 1;
            let payload = String::from("payload-two");
            cache.add_capture(key, payload.clone(), expired_at);
            payload
        }
    };
    assert_eq!(captures, 1);
    assert_eq!(refreshed, "payload-two");
    assert_eq!(cache.get_fresh(&key, expired_at + 1), Some(String::from("payload-two")));
}

#[test]
fn rectangles_differing_by_one_pixel_are_distinct_keys() {
    let mut cache = ScreenshotCache::new();
    cache.add_capture(rect(0, 0, 100, 100), String::from("a"), 100);
    cache.add_capture(rect(0, 0, 100, 101), String::from("b"), 200);
    assert_eq!(cache.get_fresh(&rect(0, 0, 100, 100), 300), Some(String::from("a")));
    assert_eq!(cache.get_fresh(&rect(0, 0, 100, 101), 300), Some(String::from("b")));
    assert_eq!(cache.get_fresh(&rect(0, 0, 101, 100), 300), None);
}

/// Insertions whose individual sizes all fit the budget keep the reported
/// total within the budget, evicting oldest-first.
#[test]
fn eviction_keeps_total_within_budget() {
    let mut cache = ScreenshotCache::new();
    let ten_mb = 10 * 1024 * 1024;
    let payload = "x".repeat(ten_mb);
    for i in 0..6u64 {
        let key = rect(i as i32, 0, 100, 100);
        cache.add_capture(key, payload.clone(), 1_000 + i);
        let (_, total, _) = cache.get_cache_stats(1_000 + i);
        assert!(total <= MAX_BYTES);
    }
    // Five 10 MB entries fill the budget exactly; the sixth evicted the
    // oldest one.
    let (entries, total, _) = cache.get_cache_stats(2_000);
    assert_eq!(entries, 5);
    assert_eq!(total, 5 * ten_mb);
    assert_eq!(cache.get_fresh(&rect(0, 0, 100, 100), 2_000), None);
    assert!(cache.get_fresh(&rect(5, 0, 100, 100), 2_000).is_some());
}

/// A single payload larger than the whole budget is still stored: returning
/// the image outranks strict budget adherence.
#[test]
fn oversize_single_entry_exceeds_budget_deliberately() {
    let mut cache = ScreenshotCache::new();
    let oversize = "x".repeat(MAX_BYTES + 1);
    cache.add_capture(rect(0, 0, 5000, 5000), oversize, 1_000);
    let (entries, total, _) = cache.get_cache_stats(1_000);
    assert_eq!(entries, 1);
    assert_eq!(total, MAX_BYTES + 1);
    // The next insert evicts it and the budget holds again.
    cache.add_capture(rect(1, 0, 100, 100), String::from("small"), 2_000);
    let (entries2, total2, _) = cache.get_cache_stats(2_000);
    assert_eq!(entries2, 1);
    assert_eq!(total2, 5);
}

#[test]
fn stats_count_expired_entries() {
    let mut cache = ScreenshotCache::new();
    cache.add_capture(rect(0, 0, 100, 100), String::from("old"), 0);
    cache.add_capture(rect(1, 0, 100, 100), String::from("new"), 20_000);
    let (entries, total, expired) = cache.get_cache_stats(TTL_MS + 1);
    assert_eq!(entries, 2);
    assert_eq!(total, 6);
    assert_eq!(expired, 1);
}

#[test]
fn sweep_removes_only_expired_entries() {
    let mut cache = ScreenshotCache::new();
    cache.add_capture(rect(0, 0, 100, 100), String::from("old"), 0);
    cache.add_capture(rect(1, 0, 100, 100), String::from("new"), 25_000);
    cache.cleanup_expired(TTL_MS);
    let (entries, _, _) = cache.get_cache_stats(TTL_MS);
    assert_eq!(entries, 1);
    assert_eq!(cache.get_fresh(&rect(0, 0, 100, 100), TTL_MS), None);
    assert_eq!(cache.get_fresh(&rect(1, 0, 100, 100), TTL_MS), Some(String::from("new")));
}

#[test]
fn clear_drops_everything() {
    let mut cache = ScreenshotCache::new();
    cache.add_capture(rect(0, 0, 100, 100), String::from("a"), 100);
    cache.add_capture(rect(1, 0, 100, 100), String::from("b"), 200);
    cache.clear_cache();
    assert_eq!(cache.get_cache_stats(300), (0, 0, 0));
}

#[test]
fn replacing_a_key_keeps_one_entry() {
    let mut cache = ScreenshotCache::new();
    let key = rect(0, 0, 100, 100);
    cache.add_capture(key, String::from("first"), 100);
    cache.add_capture(key, String::from("second-longer"), 200);
    let (entries, total, _) = cache.get_cache_stats(300);
    assert_eq!(entries, 1);
    assert_eq!(total, 13);
    assert_eq!(cache.get_fresh(&key, 300), Some(String::from("second-longer")));
}

#[test]
fn resize_buffer_leaves_entries_alone() {
    let mut cache = ScreenshotCache::new();
    cache.add_capture(rect(0, 0, 100, 100), String::from("kept"), 100);
    cache.resize_buffer(2 * 1024 * 1024);
    assert_eq!(cache.get_cache_stats(100).0, 1);
}

#[test]
fn screen_geometry_snapshot_has_its_own_window() {
    let mut cache = ScreenshotCache::new();
    assert!(cache.screen_geom_stale(0));
    cache.set_screen_geom(1920, 1080, 1_000);
    assert!(!cache.screen_geom_stale(1_000));
    assert!(!cache.screen_geom_stale(1_000 + 60_000));
    assert!(cache.screen_geom_stale(1_000 + 60_001));
}

/// The budget trigger counts the whole store, including the entry about to
/// be replaced under the same key, exactly as eviction-by-age demands.
#[test]
fn replacement_counts_the_old_entry_against_the_budget() {
    let mut cache = ScreenshotCache::with_policy(15, TTL_MS);
    cache.add_capture(rect(0, 0, 100, 100), String::from("aaaaaaaa"), 100); // 8 bytes, oldest
    cache.add_capture(rect(1, 0, 100, 100), String::from("bbbb"), 200); // 4 bytes
    // Replacing the 4-byte entry with 6 bytes: the trigger sees 12 + 6 > 15
    // (the old entry still counted), so the oldest entry is evicted.
    cache.add_capture(rect(1, 0, 100, 100), String::from("cccccc"), 300);
    let (entries, total, _) = cache.get_cache_stats(300);
    assert_eq!(entries, 1);
    assert_eq!(total, 6);
    assert_eq!(cache.get_fresh(&rect(0, 0, 100, 100), 300), None);
    assert_eq!(cache.get_fresh(&rect(1, 0, 100, 100), 300), Some(String::from("cccccc")));
}

#[test]
fn policy_constructor_sets_budget_and_ttl() {
    let mut cache = ScreenshotCache::with_policy(10, 1_000);
    cache.add_capture(rect(0, 0, 100, 100), String::from("12345678"), 0);
    assert_eq!(cache.get_cache_stats(0), (1, 8, 0));
    // The shorter TTL expires the entry after one second.
    assert_eq!(cache.get_fresh(&rect(0, 0, 100, 100), 1_000), None);
    // The smaller budget evicts the old entry for a new 8-byte one.
    cache.add_capture(rect(1, 0, 100, 100), String::from("abcdefgh"), 1_100);
    assert_eq!(cache.get_cache_stats(1_100), (1, 8, 0));
}
